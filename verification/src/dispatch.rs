//! The alarm's main loop, as a state machine.  Outside the armed interval
//! the controller idles and looks at the clock once a minute.  When the
//! interval begins it turns the light to its nominal show, arms the buzzer
//! and starts a fresh answer history; then, for as long as the interval
//! lasts, it has the bed observed, records each answer and sets the buzzer
//! to what the history calls for.  When the interval ends it puts the light
//! back to sleep and silences the buzzer.
//!
//! The controller does no work itself: each reaction lists the commands to
//! carry out, in order, and what it wants to hear about next.

use vstd::prelude::*;
use crate::history::{
    ConfidenceHistory, all_in_bed, decision_for, history_after, initial_history,
    lemma_alarm_needs_every_remembered_answer, pushed, recent,
};
use crate::sound::AlarmState;

verus! {

/// What the status light should show.
#[derive(Debug, Clone, Copy, PartialEq, Eq, Structural)]
pub enum LightCue {
    /// Outside the armed interval.
    Sleep,
    /// Watching the bed.
    Nominal,
}

/// One thing for the surrounding program to do.
#[derive(Debug, Clone, Copy, PartialEq, Eq, Structural)]
pub enum Command {
    /// Show this on the status light.
    ShowLight(LightCue),
    /// Ask the buzzer for this.
    SetAlarm(AlarmState),
    /// Wait one minute.
    WaitMinute,
}

/// What the controller wants to hear about after its commands are done.
#[derive(Debug, Clone, Copy, PartialEq, Eq, Structural)]
pub enum Follow {
    /// Read the clock and report whether the armed interval is on.
    ReadClock,
    /// Take a frame, ask the model about it and report its answer.
    ObserveBed,
}

/// What happened since the controller last reacted.
#[derive(Debug, Clone, Copy, PartialEq, Eq, Structural)]
pub enum Event {
    /// The clock was read: whether the armed interval is on.
    ClockRead(bool),
    /// The model looked at a frame: whether it saw someone lying in bed.
    BedObserved(bool),
}

/// The controller's answer to one event.
pub struct Reaction {
    pub commands: Vec<Command>,
    pub follow: Follow,
}

/// The controller as the contracts see it: the answer history while
/// watching, `None` while idle.
pub struct ControllerView {
    pub watching: Option<Seq<u8>>,
}

/// How the controller reacts to an event: its next view, the commands it
/// issues and what it wants to hear about next.
pub open spec fn react_spec(c: ControllerView, e: Event) -> (ControllerView, Seq<Command>, Follow) {
    match (c.watching, e) {
        (None, Event::ClockRead(false)) => (c, seq![Command::WaitMinute], Follow::ReadClock),
        (None, Event::ClockRead(true)) => (
            ControllerView { watching: Some(initial_history()) },
            seq![
                Command::ShowLight(LightCue::Nominal),
                Command::SetAlarm(AlarmState::Active),
            ],
            Follow::ReadClock,
        ),
        (None, Event::BedObserved(_)) => (c, seq![], Follow::ReadClock),
        (Some(h), Event::ClockRead(true)) => (c, seq![], Follow::ObserveBed),
        (Some(h), Event::ClockRead(false)) => (
            ControllerView { watching: None },
            seq![
                Command::ShowLight(LightCue::Sleep),
                Command::SetAlarm(AlarmState::Disarmed),
            ],
            Follow::ReadClock,
        ),
        (Some(h), Event::BedObserved(in_bed)) => {
            let next = pushed(h, in_bed);
            (
                ControllerView { watching: Some(next) },
                seq![Command::SetAlarm(decision_for(next))],
                Follow::ReadClock,
            )
        },
    }
}

/// The alarm's main loop.
pub struct Controller {
    watching: Option<ConfidenceHistory>,
}

impl View for Controller {
    type V = ControllerView;

    closed spec fn view(&self) -> ControllerView {
        ControllerView {
            watching: match self.watching {
                Some(h) => Some(h@),
                None => None,
            },
        }
    }
}

impl Controller {
    /// A controller about to start: it idles, and the light goes to sleep.
    pub fn start() -> (r: (Self, Reaction))
        ensures
            r.0@.watching is None,
            r.1.commands@ == seq![Command::ShowLight(LightCue::Sleep)],
            r.1.follow == Follow::ReadClock,
    {
        let mut commands: Vec<Command> = Vec::new();
        commands.push(Command::ShowLight(LightCue::Sleep));
        (Controller { watching: None }, Reaction { commands, follow: Follow::ReadClock })
    }

    /// Whether the controller is watching the bed.
    pub fn is_watching(&self) -> (w: bool)
        ensures
            w == self@.watching is Some,
    {
        self.watching.is_some()
    }

    /// Reacts to one event.
    pub fn react(&mut self, event: Event) -> (r: Reaction)
        ensures
            react_spec(old(self)@, event) == (final(self)@, r.commands@, r.follow),
    {
        let mut commands: Vec<Command> = Vec::new();
        match event {
            Event::ClockRead(active) => {
                if self.watching.is_none() {
                    if active {
                        self.watching = Some(ConfidenceHistory::new());
                        commands.push(Command::ShowLight(LightCue::Nominal));
                        commands.push(Command::SetAlarm(AlarmState::Active));
                        Reaction { commands, follow: Follow::ReadClock }
                    } else {
                        commands.push(Command::WaitMinute);
                        Reaction { commands, follow: Follow::ReadClock }
                    }
                } else {
                    if active {
                        Reaction { commands, follow: Follow::ObserveBed }
                    } else {
                        self.watching = None;
                        commands.push(Command::ShowLight(LightCue::Sleep));
                        commands.push(Command::SetAlarm(AlarmState::Disarmed));
                        Reaction { commands, follow: Follow::ReadClock }
                    }
                }
            },
            Event::BedObserved(in_bed) => {
                match self.watching.take() {
                    None => Reaction { commands, follow: Follow::ReadClock },
                    Some(mut history) => {
                        history.push(in_bed);
                        let state = history.alarm_decision();
                        self.watching = Some(history);
                        commands.push(Command::SetAlarm(state));
                        Reaction { commands, follow: Follow::ReadClock }
                    },
                }
            },
        }
    }
}

} // verus!

verus! {

/// Whether a list of commands asks the buzzer to sound the alarm.
pub open spec fn sounds_alarm(commands: Seq<Command>) -> bool {
    exists|i: int| 0 <= i < commands.len() && commands[i] == Command::SetAlarm(AlarmState::Active)
}

/// When the clock says the armed interval is off, the controller never
/// sounds the alarm and never has the bed observed (it only reads the clock
/// again); if it was watching, it stops, puts the light to sleep and
/// silences the buzzer.
pub proof fn lemma_off_hours_are_silent(c: ControllerView)
    ensures
        !sounds_alarm(react_spec(c, Event::ClockRead(false)).1),
        react_spec(c, Event::ClockRead(false)).2 == Follow::ReadClock,
        c.watching is Some ==> {
            let (next, commands, _) = react_spec(c, Event::ClockRead(false));
            &&& next.watching is None
            &&& commands.contains(Command::SetAlarm(AlarmState::Disarmed))
        },
{
    let commands = react_spec(c, Event::ClockRead(false)).1;
    if c.watching is Some {
        assert(commands[1] == Command::SetAlarm(AlarmState::Disarmed));
    }
}

/// The controller's view after reacting to `events` in order.
pub open spec fn run_events(c: ControllerView, events: Seq<Event>) -> ControllerView
    decreases events.len(),
{
    if events.len() == 0 {
        c
    } else {
        react_spec(run_events(c, events.drop_last()), events.last()).0
    }
}

/// The events of one watch: the clock first reports the armed interval on,
/// then for each answer of the model the clock again reports it on and the
/// answer comes in.
pub open spec fn watch_events(readings: Seq<bool>) -> Seq<Event>
    decreases readings.len(),
{
    if readings.len() == 0 {
        seq![Event::ClockRead(true)]
    } else {
        watch_events(readings.drop_last()) + seq![
            Event::ClockRead(true),
            Event::BedObserved(readings.last()),
        ]
    }
}

/// Every watch starts from a fresh history, so within a watch the buzzer
/// follows the alarm rule of `history`: after the answers `readings`, the
/// controller holds the history of exactly those answers, and the last
/// answer sets the buzzer to what that history calls for.
pub proof fn lemma_watch_follows_answers(c: ControllerView, readings: Seq<bool>)
    requires
        c.watching is None,
    ensures
        run_events(c, watch_events(readings)).watching == Some(history_after(readings)),
        readings.len() > 0 ==> react_spec(
            run_events(c, watch_events(readings).drop_last()),
            watch_events(readings).last(),
        ).1 == seq![Command::SetAlarm(decision_for(history_after(readings)))],
    decreases readings.len(),
{
    if readings.len() == 0 {
        reveal_with_fuel(run_events, 2);
        assert(watch_events(readings).drop_last() =~= Seq::<Event>::empty());
    } else {
        let prev = readings.drop_last();
        lemma_watch_follows_answers(c, prev);
        let a = watch_events(prev);
        let x = Event::ClockRead(true);
        let y = Event::BedObserved(readings.last());
        let all = watch_events(readings);
        assert(all == a + seq![x, y]);
        assert(all.drop_last() =~= a.push(x));
        assert(a.push(x).drop_last() =~= a);
        assert(all.last() == y);
        assert(a.push(x).last() == x);
        assert(history_after(readings) == pushed(history_after(prev), readings.last()));
    }
}

} // verus!

verus! {

/// Within a watch, each answer sets the buzzer sounding exactly when every
/// answer the history remembers (the last five of the watch, or all of them
/// while fewer) saw someone lying in bed, and silences it otherwise.
pub proof fn lemma_watch_sounds_on_unanimous_answers(c: ControllerView, readings: Seq<bool>)
    requires
        c.watching is None,
        readings.len() > 0,
    ensures
        react_spec(run_events(c, watch_events(readings).drop_last()), watch_events(readings).last()).1
            == seq![
            Command::SetAlarm(
                if all_in_bed(recent(readings)) {
                    AlarmState::Active
                } else {
                    AlarmState::Disarmed
                },
            ),
        ],
{
    lemma_watch_follows_answers(c, readings);
    lemma_alarm_needs_every_remembered_answer(readings);
}

} // verus!

verus! {

/// While watching, the buzzer is left alone between answers: the clock
/// reporting the interval still on issues no command at all, keeps the
/// history, and only asks for the bed to be observed.  Within a watch the
/// buzzer is set only in answer to an observation (to what the history
/// with that answer calls for) or when the interval ends (silenced).
pub proof fn lemma_buzzer_changes_only_on_answers(c: ControllerView, e: Event)
    requires
        c.watching is Some,
    ensures
        e == Event::ClockRead(true) ==> {
            let (next, commands, follow) = react_spec(c, e);
            &&& commands.len() == 0
            &&& next == c
            &&& follow == Follow::ObserveBed
        },
        forall|i: int|
            0 <= i < react_spec(c, e).1.len() && (#[trigger] react_spec(c, e).1[i]) is SetAlarm
                ==> match e {
                Event::BedObserved(in_bed) => react_spec(c, e).1[i] == Command::SetAlarm(
                    decision_for(pushed(c.watching->0, in_bed)),
                ),
                Event::ClockRead(active) => !active && react_spec(c, e).1[i] == Command::SetAlarm(
                    AlarmState::Disarmed,
                ),
            },
{
}

} // verus!
