use gpt_alarm::camera::{ends_pipeline, BusMessage, FrameRequest};
use gpt_alarm::dispatch::{Command, Controller, Event, Follow, LightCue};
use gpt_alarm::server::{launch_succeeded, poll_server, server_program, status_is_ok, LaunchWait, ServerPoll, LLAMA_SERVER_BIN};
use gpt_alarm::sound::AlarmState;

#[test]
fn controller_day_cycle() {
    let (mut c, r) = Controller::start();
    assert_eq!(r.commands, vec![Command::ShowLight(LightCue::Sleep)]);
    assert_eq!(r.follow, Follow::ReadClock);
    assert!(!c.is_watching());

    let r = c.react(Event::ClockRead(false));
    assert_eq!(r.commands, vec![Command::WaitMinute]);
    assert_eq!(r.follow, Follow::ReadClock);

    let r = c.react(Event::ClockRead(true));
    assert_eq!(
        r.commands,
        vec![Command::ShowLight(LightCue::Nominal), Command::SetAlarm(AlarmState::Active)]
    );
    assert!(c.is_watching());

    let r = c.react(Event::ClockRead(true));
    assert!(r.commands.is_empty());
    assert_eq!(r.follow, Follow::ObserveBed);

    let r = c.react(Event::BedObserved(true));
    assert_eq!(r.commands, vec![Command::SetAlarm(AlarmState::Active)]);
    assert_eq!(r.follow, Follow::ReadClock);

    c.react(Event::ClockRead(true));
    let r = c.react(Event::BedObserved(false));
    assert_eq!(r.commands, vec![Command::SetAlarm(AlarmState::Disarmed)]);

    let r = c.react(Event::ClockRead(false));
    assert_eq!(
        r.commands,
        vec![Command::ShowLight(LightCue::Sleep), Command::SetAlarm(AlarmState::Disarmed)]
    );
    assert!(!c.is_watching());
}

#[test]
fn each_watch_starts_fresh() {
    let (mut c, _) = Controller::start();
    c.react(Event::ClockRead(true));
    for _ in 0..5 {
        c.react(Event::ClockRead(true));
        c.react(Event::BedObserved(false));
    }
    c.react(Event::ClockRead(false));
    c.react(Event::ClockRead(true));
    c.react(Event::ClockRead(true));
    // One yes on a fresh history is above the threshold.
    let r = c.react(Event::BedObserved(true));
    assert_eq!(r.commands, vec![Command::SetAlarm(AlarmState::Active)]);
}

#[test]
fn stray_answer_while_idle_is_ignored() {
    let (mut c, _) = Controller::start();
    let r = c.react(Event::BedObserved(true));
    assert!(r.commands.is_empty());
    assert!(!c.is_watching());
}

#[test]
fn server_polling() {
    assert_eq!(poll_server(true, true, 500), ServerPoll::Ready);
    assert_eq!(poll_server(false, true, 0), ServerPoll::Exited);
    assert_eq!(poll_server(false, false, 120), ServerPoll::TimedOut);
    assert_eq!(poll_server(false, false, 119), ServerPoll::Retry);
}

#[test]
fn server_launch() {
    assert!(launch_succeeded(LaunchWait::StillRunning));
    assert!(!launch_succeeded(LaunchWait::Exited));
    assert!(!launch_succeeded(LaunchWait::WaitFailed));
}

#[test]
fn server_program_choice() {
    assert_eq!(server_program(None), LLAMA_SERVER_BIN);
    assert_eq!(server_program(Some("/usr/bin/llama".to_string())), "/usr/bin/llama");
}

#[test]
fn health_status() {
    assert!(status_is_ok(Some("ok")));
    assert!(!status_is_ok(Some("loading")));
    assert!(!status_is_ok(Some("OK")));
    assert!(!status_is_ok(Some("")));
    assert!(!status_is_ok(None));
}

#[test]
fn frame_requests_are_answered_once() {
    let mut f = FrameRequest::new();
    assert!(!f.on_sample());
    f.request();
    assert!(f.on_sample());
    assert!(!f.on_sample());
    f.request();
    f.request();
    assert!(f.on_sample());
    assert!(!f.on_sample());
}

#[test]
fn pipeline_stops_on_error_and_end() {
    assert!(ends_pipeline(BusMessage::Error));
    assert!(ends_pipeline(BusMessage::EndOfStream));
    assert!(!ends_pipeline(BusMessage::Other));
}
