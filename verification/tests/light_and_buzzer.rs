use gpt_alarm::inbox::Inbox;
use gpt_alarm::led::{blink_step, LEDState, FLASH_PER_S};
use gpt_alarm::pin::PinCommand;
use gpt_alarm::sound::{alarm_pattern, sound_step, AlarmState, SoundTick};

#[test]
fn flashes_per_state() {
    assert_eq!(LEDState::Sleep.num_flashes(), 1);
    assert_eq!(LEDState::Wait.num_flashes(), 3);
    assert_eq!(LEDState::Startup.num_flashes(), 5);
}

#[test]
fn blink_cycle_of_waiting_light() {
    let c = blink_step(LEDState::Sleep, Inbox::Update(LEDState::Wait)).unwrap();
    assert_eq!(c.state, LEDState::Wait);
    let flash = [PinCommand::Drive(true), PinCommand::Hold(100), PinCommand::Drive(false), PinCommand::Hold(100)];
    let mut expected = Vec::new();
    for _ in 0..3 {
        expected.extend_from_slice(&flash);
    }
    expected.push(PinCommand::Hold(400));
    assert_eq!(c.commands, expected);
}

#[test]
fn blink_keeps_state_when_inbox_is_empty() {
    let c = blink_step(LEDState::Startup, Inbox::Empty).unwrap();
    assert_eq!(c.state, LEDState::Startup);
    assert_eq!(pulses(&c.commands), 5);
    assert_eq!(c.commands.last(), Some(&PinCommand::Hold(0)));
}

#[test]
fn blink_worker_stops_when_inbox_closes() {
    assert!(blink_step(LEDState::Sleep, Inbox::Closed).is_none());
}

#[test]
fn every_blink_cycle_lasts_one_second_and_ends_dark() {
    for s in [LEDState::Sleep, LEDState::Wait, LEDState::Startup] {
        let c = blink_step(s, Inbox::Empty).unwrap();
        assert_eq!(total_ms(&c.commands), 1000);
        assert!(ends_silent(&c.commands));
        assert_eq!(pulses(&c.commands), s.num_flashes() as usize);
        assert!(s.num_flashes() <= FLASH_PER_S);
    }
}

#[test]
fn workers_start_states() {
    assert_eq!(LEDState::worker_start(), LEDState::Startup);
    assert_eq!(AlarmState::worker_start(), AlarmState::Disarmed);
}

fn pulses(commands: &[PinCommand]) -> usize {
    commands.iter().filter(|c| **c == PinCommand::Drive(true)).count()
}

fn ends_silent(commands: &[PinCommand]) -> bool {
    let mut on = false;
    for c in commands {
        if let PinCommand::Drive(level) = c {
            on = *level;
        }
    }
    !on
}

fn total_ms(commands: &[PinCommand]) -> u64 {
    commands
        .iter()
        .map(|c| match c {
            PinCommand::Hold(ms) => *ms,
            PinCommand::Drive(_) => 0,
        })
        .sum()
}

#[test]
fn active_alarm_pattern() {
    let p = alarm_pattern(AlarmState::Active);
    assert_eq!(
        p,
        vec![
            PinCommand::Drive(true),
            PinCommand::Hold(125),
            PinCommand::Drive(false),
            PinCommand::Hold(125),
            PinCommand::Drive(true),
            PinCommand::Hold(125),
            PinCommand::Drive(false),
            PinCommand::Hold(750),
        ]
    );
    assert_eq!(total_ms(&p), 1125);
}

#[test]
fn count_beeps_as_asked() {
    for n in [0u8, 1, 2, 7] {
        let p = alarm_pattern(AlarmState::Count(n));
        assert_eq!(pulses(&p), n as usize);
        assert_eq!(p.len(), 4 * n as usize);
        assert_eq!(total_ms(&p), 250 * n as u64);
    }
}

#[test]
fn error_and_disarmed_patterns() {
    assert_eq!(
        alarm_pattern(AlarmState::Error),
        vec![PinCommand::Drive(true), PinCommand::Hold(500), PinCommand::Drive(false)]
    );
    assert_eq!(alarm_pattern(AlarmState::Disarmed), vec![PinCommand::Hold(500)]);
}

#[test]
fn buzzer_is_silent_after_every_cycle() {
    for s in [AlarmState::Active, AlarmState::Count(3), AlarmState::Count(0), AlarmState::Error, AlarmState::Disarmed] {
        assert!(ends_silent(&alarm_pattern(s)));
    }
}

#[test]
fn sound_worker_takes_requests_before_playing() {
    match sound_step(AlarmState::Disarmed, Inbox::Update(AlarmState::Count(2))) {
        SoundTick::Absorbed(s) => assert_eq!(s, AlarmState::Count(2)),
        _ => panic!("expected the request to be taken"),
    }
}

#[test]
fn count_falls_back_to_silence() {
    match sound_step(AlarmState::Count(2), Inbox::Empty) {
        SoundTick::Play { commands, next } => {
            assert_eq!(pulses(&commands), 2);
            assert_eq!(next, Some(AlarmState::Disarmed));
        },
        _ => panic!("expected a cycle to be played"),
    }
}

#[test]
fn error_stops_the_sound_worker() {
    match sound_step(AlarmState::Error, Inbox::Empty) {
        SoundTick::Play { commands, next } => {
            assert_eq!(pulses(&commands), 1);
            assert_eq!(next, None);
        },
        _ => panic!("expected a cycle to be played"),
    }
}

#[test]
fn active_alarm_keeps_sounding() {
    match sound_step(AlarmState::Active, Inbox::Empty) {
        SoundTick::Play { next, .. } => assert_eq!(next, Some(AlarmState::Active)),
        _ => panic!("expected a cycle to be played"),
    }
}

#[test]
fn sound_worker_stops_when_inbox_closes() {
    assert!(matches!(sound_step(AlarmState::Active, Inbox::Closed), SoundTick::Stop));
}

#[test]
fn queued_buzzer_requests_are_all_taken_before_playing() {
    let mut state = AlarmState::Disarmed;
    let queue = [AlarmState::Active, AlarmState::Count(3), AlarmState::Error, AlarmState::Count(1)];
    for q in queue {
        match sound_step(state, Inbox::Update(q)) {
            SoundTick::Absorbed(s) => state = s,
            _ => panic!("a waiting request must be taken first"),
        }
    }
    match sound_step(state, Inbox::Empty) {
        SoundTick::Play { commands, next } => {
            assert_eq!(pulses(&commands), 1);
            assert_eq!(next, Some(AlarmState::Disarmed));
        },
        _ => panic!("expected a cycle to be played"),
    }
}

#[test]
fn buzzer_drives_alternate_over_a_run() {
    let mut state = AlarmState::Disarmed;
    let inboxes = vec![
        Inbox::Empty,
        Inbox::Update(AlarmState::Active),
        Inbox::Empty,
        Inbox::Empty,
        Inbox::Update(AlarmState::Count(3)),
        Inbox::Empty,
        Inbox::Empty,
        Inbox::Update(AlarmState::Error),
        Inbox::Empty,
    ];
    let mut drives = Vec::new();
    for inbox in inboxes {
        match sound_step(state, inbox) {
            SoundTick::Absorbed(s) => state = s,
            SoundTick::Stop => break,
            SoundTick::Play { commands, next } => {
                for c in commands {
                    if let PinCommand::Drive(on) = c {
                        drives.push(on);
                    }
                }
                match next {
                    Some(s) => state = s,
                    None => break,
                }
            },
        }
    }
    assert_eq!(drives.len(), 2 * (2 + 2 + 3 + 1));
    for (i, on) in drives.iter().enumerate() {
        assert_eq!(*on, i % 2 == 0);
    }
}

#[test]
fn light_takes_one_request_per_second() {
    let mut state = LEDState::worker_start();
    let mut shown = Vec::new();
    let mut drives = Vec::new();
    for q in [LEDState::Wait, LEDState::Sleep, LEDState::Wait] {
        let c = blink_step(state, Inbox::Update(q)).unwrap();
        state = c.state;
        shown.push(c.state);
        assert_eq!(total_ms(&c.commands), 1000);
        for cmd in &c.commands {
            if let PinCommand::Drive(on) = cmd {
                drives.push(*on);
            }
        }
    }
    assert_eq!(shown, vec![LEDState::Wait, LEDState::Sleep, LEDState::Wait]);
    assert_eq!(drives.len(), 2 * (3 + 1 + 3));
    for (i, on) in drives.iter().enumerate() {
        assert_eq!(*on, i % 2 == 0);
    }
}
