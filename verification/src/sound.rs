//! The buzzer: what each alarm state sounds like, and what the buzzer's
//! worker does each time it looks at its inbox.

use vstd::prelude::*;
use crate::inbox::Inbox;
use crate::pin::{
    PinCommand, drives, high_ms, hold_total, lemma_commands_concat, lemma_high_concat,
    lemma_pairs_concat, level_after, on_off_pairs,
};

verus! {

/// What the buzzer is asked to do.
#[derive(Debug, Clone, Copy, PartialEq, Eq, Structural)]
pub enum AlarmState {
    /// Sound the alarm, over and over.
    Active,
    /// Beep this many times, then fall silent.
    Count(u8),
    /// Sound one long tone and stop the buzzer's worker.
    Error,
    /// Stay silent.
    Disarmed,
}

/// One short beep: on for 125 ms, then off for 125 ms.
pub open spec fn beep() -> Seq<PinCommand> {
    seq![
        PinCommand::Drive(true),
        PinCommand::Hold(125),
        PinCommand::Drive(false),
        PinCommand::Hold(125),
    ]
}

/// `n` short beeps in a row.
pub open spec fn beep_train(n: nat) -> Seq<PinCommand>
    decreases n,
{
    if n == 0 {
        seq![]
    } else {
        beep_train((n - 1) as nat) + beep()
    }
}

/// What one cycle of the buzzer's worker plays for a state.
pub open spec fn pattern_of(state: AlarmState) -> Seq<PinCommand> {
    match state {
        AlarmState::Active => seq![
            PinCommand::Drive(true),
            PinCommand::Hold(125),
            PinCommand::Drive(false),
            PinCommand::Hold(125),
            PinCommand::Drive(true),
            PinCommand::Hold(125),
            PinCommand::Drive(false),
            PinCommand::Hold(750),
        ],
        AlarmState::Count(n) => beep_train(n as nat),
        AlarmState::Error => seq![
            PinCommand::Drive(true),
            PinCommand::Hold(500),
            PinCommand::Drive(false),
        ],
        AlarmState::Disarmed => seq![PinCommand::Hold(500)],
    }
}

/// The state the worker keeps after playing a state's cycle; `None` when the
/// worker stops after it.
pub open spec fn state_after_cycle(state: AlarmState) -> Option<AlarmState> {
    match state {
        AlarmState::Active => Some(AlarmState::Active),
        AlarmState::Count(_) => Some(AlarmState::Disarmed),
        AlarmState::Error => None,
        AlarmState::Disarmed => Some(AlarmState::Disarmed),
    }
}

impl AlarmState {
    /// The state the buzzer's worker starts in: silent.
    pub fn worker_start() -> (s: AlarmState)
        ensures
            s == AlarmState::Disarmed,
    {
        AlarmState::Disarmed
    }
}

/// What the buzzer's worker does after one look at its inbox.
#[derive(Debug)]
pub enum SoundTick {
    /// A request was waiting and is now the current state; look again before
    /// playing anything.
    Absorbed(AlarmState),
    /// Nothing was waiting: play `commands`, then carry on with `next`, or
    /// stop when `next` is `None`.
    Play { commands: Vec<PinCommand>, next: Option<AlarmState> },
    /// Nobody can send requests any more: stop.
    Stop,
}

/// Appends one short beep.
fn push_beep(commands: &mut Vec<PinCommand>)
    ensures
        final(commands)@ == old(commands)@ + beep(),
{
    commands.push(PinCommand::Drive(true));
    commands.push(PinCommand::Hold(125));
    commands.push(PinCommand::Drive(false));
    commands.push(PinCommand::Hold(125));
    assert(commands@ =~= old(commands)@ + beep());
}

/// The commands of one cycle of `state`.
pub fn alarm_pattern(state: AlarmState) -> (commands: Vec<PinCommand>)
    ensures
        commands@ == pattern_of(state),
{
    let mut commands: Vec<PinCommand> = Vec::new();
    match state {
        AlarmState::Active => {
            commands.push(PinCommand::Drive(true));
            commands.push(PinCommand::Hold(125));
            commands.push(PinCommand::Drive(false));
            commands.push(PinCommand::Hold(125));
            commands.push(PinCommand::Drive(true));
            commands.push(PinCommand::Hold(125));
            commands.push(PinCommand::Drive(false));
            commands.push(PinCommand::Hold(750));
        },
        AlarmState::Count(n) => {
            for i in 0..n
                invariant
                    commands@ == beep_train(i as nat),
            {
                push_beep(&mut commands);
            }
        },
        AlarmState::Error => {
            commands.push(PinCommand::Drive(true));
            commands.push(PinCommand::Hold(500));
            commands.push(PinCommand::Drive(false));
        },
        AlarmState::Disarmed => {
            commands.push(PinCommand::Hold(500));
        },
    }
    assert(commands@ =~= pattern_of(state));
    commands
}

/// What one look at the inbox makes the worker do: the commands it plays
/// and the state it carries on with (`None`: it stops).
pub open spec fn tick_effect(current: AlarmState, inbox: Inbox<AlarmState>) -> (Seq<PinCommand>, Option<AlarmState>) {
    match inbox {
        Inbox::Update(requested) => (seq![], Some(requested)),
        Inbox::Closed => (seq![], None),
        Inbox::Empty => (pattern_of(current), state_after_cycle(current)),
    }
}

/// What a result of `sound_step` amounts to: the commands played and the
/// state carried on with.
pub open spec fn tick_outcome(tick: SoundTick) -> (Seq<PinCommand>, Option<AlarmState>) {
    match tick {
        SoundTick::Absorbed(s) => (seq![], Some(s)),
        SoundTick::Play { commands, next } => (commands@, next),
        SoundTick::Stop => (seq![], None),
    }
}

/// One look of the buzzer's worker at its inbox, with `current` the state it
/// holds.  Waiting requests are taken one at a time before anything is
/// played, so the newest one wins.
pub fn sound_step(current: AlarmState, inbox: Inbox<AlarmState>) -> (tick: SoundTick)
    ensures
        match inbox {
            Inbox::Update(requested) => tick == SoundTick::Absorbed(requested),
            Inbox::Closed => tick is Stop,
            Inbox::Empty => tick matches SoundTick::Play { commands, next }
                && commands@ == pattern_of(current)
                && next == state_after_cycle(current),
        },
        tick_outcome(tick) == tick_effect(current, inbox),
{
    match inbox {
        Inbox::Update(requested) => SoundTick::Absorbed(requested),
        Inbox::Closed => SoundTick::Stop,
        Inbox::Empty => {
            let commands = alarm_pattern(current);
            let next = match current {
                AlarmState::Active => Some(AlarmState::Active),
                AlarmState::Count(_) => Some(AlarmState::Disarmed),
                AlarmState::Error => None,
                AlarmState::Disarmed => Some(AlarmState::Disarmed),
            };
            SoundTick::Play { commands, next }
        },
    }
}

} // verus!

verus! {

/// How many times `commands` switch the buzzer on.
pub open spec fn presses(commands: Seq<PinCommand>) -> nat
    decreases commands.len(),
{
    if commands.len() == 0 {
        0
    } else {
        (if commands[0] == PinCommand::Drive(true) { 1nat } else { 0nat })
            + presses(commands.drop_first())
    }
}

/// Running two lists of commands one after the other.
proof fn lemma_concat(a: Seq<PinCommand>, b: Seq<PinCommand>, level: bool)
    ensures
        level_after(a + b, level) == level_after(b, level_after(a, level)),
        presses(a + b) == presses(a) + presses(b),
    decreases a.len(),
{
    if a.len() == 0 {
        assert(a + b =~= b);
    } else {
        assert((a + b).drop_first() =~= a.drop_first() + b);
        let next = match a[0] {
            PinCommand::Drive(on) => on,
            PinCommand::Hold(_) => level,
        };
        lemma_concat(a.drop_first(), b, next);
    }
}

proof fn lemma_beep_train(n: nat, level: bool)
    ensures
        presses(beep_train(n)) == n,
        n > 0 ==> !level_after(beep_train(n), level),
        n == 0 ==> level_after(beep_train(n), level) == level,
    decreases n,
{
    reveal_with_fuel(presses, 5);
    reveal_with_fuel(level_after, 5);
    if n > 0 {
        lemma_beep_train((n - 1) as nat, level);
        lemma_concat(beep_train((n - 1) as nat), beep(), level);
    }
}

/// A count request beeps exactly as many times as it asks for.
pub proof fn lemma_count_beeps(n: u8)
    ensures
        presses(pattern_of(AlarmState::Count(n))) == n,
{
    lemma_beep_train(n as nat, false);
}

/// The buzzer is never left sounding between cycles: when it is off as a
/// cycle starts, it is off again when the cycle ends, whatever the state.
pub proof fn lemma_buzzer_rests_after_cycle(state: AlarmState)
    ensures
        !level_after(pattern_of(state), false),
{
    reveal_with_fuel(level_after, 9);
    if let AlarmState::Count(n) = state {
        lemma_beep_train(n as nat, false);
    }
}

} // verus!

verus! {

/// What the buzzer's worker plays, starting in `state`, when its looks at
/// the inbox find `inboxes` in turn, and the state it holds afterwards
/// (`None` once it has stopped).
pub open spec fn run_worker(state: AlarmState, inboxes: Seq<Inbox<AlarmState>>) -> (Seq<PinCommand>, Option<AlarmState>)
    decreases inboxes.len(),
{
    if inboxes.len() == 0 {
        (seq![], Some(state))
    } else {
        let (played, held) = run_worker(state, inboxes.drop_last());
        match held {
            None => (played, None),
            Some(s) => {
                let (more, next) = tick_effect(s, inboxes.last());
                (played + more, next)
            },
        }
    }
}

/// Requests `updates`, all found waiting.
pub open spec fn as_updates(updates: Seq<AlarmState>) -> Seq<Inbox<AlarmState>> {
    updates.map_values(|u: AlarmState| Inbox::Update(u))
}

/// Requests that queue up are all taken before anything plays, and the
/// worker then plays as the newest of them asks.
pub proof fn lemma_queue_drained_before_playing(state: AlarmState, updates: Seq<AlarmState>)
    requires
        updates.len() >= 1,
    ensures
        run_worker(state, as_updates(updates)) == (Seq::<PinCommand>::empty(), Some(updates.last())),
        run_worker(state, as_updates(updates).push(Inbox::Empty)) == (
            pattern_of(updates.last()),
            state_after_cycle(updates.last()),
        ),
    decreases updates.len(),
{
    let q = as_updates(updates);
    assert(q.drop_last() =~= as_updates(updates.drop_last()));
    assert(q.last() == Inbox::Update(updates.last()));
    if updates.len() > 1 {
        lemma_queue_drained_before_playing(state, updates.drop_last());
    } else {
        assert(q.drop_last() =~= Seq::<Inbox<AlarmState>>::empty());
    }
    assert(Seq::<PinCommand>::empty() + Seq::<PinCommand>::empty() =~= Seq::<PinCommand>::empty());
    assert(run_worker(state, q) == (Seq::<PinCommand>::empty(), Some(updates.last())));
    assert(q.push(Inbox::Empty).drop_last() =~= q);
    assert(Seq::<PinCommand>::empty() + pattern_of(updates.last()) =~= pattern_of(updates.last()));
}

proof fn lemma_beep_train_pairs(n: nat)
    ensures
        on_off_pairs(drives(beep_train(n))),
    decreases n,
{
    if n > 0 {
        lemma_beep_train_pairs((n - 1) as nat);
        lemma_commands_concat(beep_train((n - 1) as nat), beep());
        reveal_with_fuel(drives, 5);
        assert(drives(beep()) =~= seq![true, false]);
        lemma_pairs_concat(drives(beep_train((n - 1) as nat)), drives(beep()));
    } else {
        assert(drives(beep_train(0)) =~= Seq::<bool>::empty());
    }
}

proof fn lemma_pattern_pairs(state: AlarmState)
    ensures
        on_off_pairs(drives(pattern_of(state))),
{
    reveal_with_fuel(drives, 9);
    match state {
        AlarmState::Active => {
            assert(drives(pattern_of(state)) =~= seq![true, false, true, false]);
        },
        AlarmState::Count(n) => {
            lemma_beep_train_pairs(n as nat);
        },
        AlarmState::Error => {
            assert(drives(pattern_of(state)) =~= seq![true, false]);
        },
        AlarmState::Disarmed => {
            assert(drives(pattern_of(state)) =~= Seq::<bool>::empty());
        },
    }
}

/// However requests arrive, the buzzer's worker drives the buzzer on, off,
/// on, off, ..., starting with on, and its last drive so far is always off:
/// it never leaves the buzzer on.
pub proof fn lemma_buzzer_alternates(state: AlarmState, inboxes: Seq<Inbox<AlarmState>>)
    ensures
        on_off_pairs(drives(run_worker(state, inboxes).0)),
    decreases inboxes.len(),
{
    if inboxes.len() == 0 {
        assert(drives(Seq::<PinCommand>::empty()) =~= Seq::<bool>::empty());
    } else {
        lemma_buzzer_alternates(state, inboxes.drop_last());
        let (played, held) = run_worker(state, inboxes.drop_last());
        if let Some(s) = held {
            let more = tick_effect(s, inboxes.last()).0;
            lemma_commands_concat(played, more);
            match inboxes.last() {
                Inbox::Empty => lemma_pattern_pairs(s),
                _ => {
                    assert(drives(more) =~= Seq::<bool>::empty());
                },
            }
            lemma_pairs_concat(drives(played), drives(more));
        }
    }
}

} // verus!

verus! {

/// `n` looks at an empty inbox.
pub open spec fn idle_looks(n: nat) -> Seq<Inbox<AlarmState>> {
    Seq::new(n, |i: int| Inbox::Empty)
}

/// Without requests the worker never changes to a louder state by itself:
/// after any number of idle looks it holds the state it started in or is
/// silent (or has stopped, after an error), and it only ever plays the
/// cycles of those states.
pub proof fn lemma_never_arms_itself(state: AlarmState, n: nat)
    ensures
        match run_worker(state, idle_looks(n)).1 {
            Some(s) => s == state || s == AlarmState::Disarmed,
            None => state == AlarmState::Error,
        },
    decreases n,
{
    if n > 0 {
        assert(idle_looks(n).drop_last() =~= idle_looks((n - 1) as nat));
        lemma_never_arms_itself(state, (n - 1) as nat);
    }
}

/// A silent buzzer stays silent: from `Disarmed`, however many idle looks
/// the worker makes, it never drives the buzzer and stays `Disarmed`.
pub proof fn lemma_silent_stays_silent(n: nat)
    ensures
        drives(run_worker(AlarmState::Disarmed, idle_looks(n)).0).len() == 0,
        run_worker(AlarmState::Disarmed, idle_looks(n)).1 == Some(AlarmState::Disarmed),
    decreases n,
{
    if n == 0 {
        assert(drives(Seq::<PinCommand>::empty()) =~= Seq::<bool>::empty());
    } else {
        assert(idle_looks(n).drop_last() =~= idle_looks((n - 1) as nat));
        lemma_silent_stays_silent((n - 1) as nat);
        let played = run_worker(AlarmState::Disarmed, idle_looks((n - 1) as nat)).0;
        let more = pattern_of(AlarmState::Disarmed);
        lemma_commands_concat(played, more);
        reveal_with_fuel(drives, 2);
        assert(more.drop_last() =~= Seq::<PinCommand>::empty());
        assert(drives(more) =~= Seq::<bool>::empty());
    }
}

} // verus!

verus! {

proof fn lemma_beep_train_timing(n: nat)
    ensures
        high_ms(beep_train(n), false) == 125 * n,
        hold_total(beep_train(n)) == 250 * n,
        !level_after(beep_train(n), false),
    decreases n,
{
    if n > 0 {
        let prev = beep_train((n - 1) as nat);
        lemma_beep_train_timing((n - 1) as nat);
        lemma_high_concat(prev, beep(), false);
        lemma_commands_concat(prev, beep());
        reveal_with_fuel(high_ms, 5);
        reveal_with_fuel(level_after, 5);
        reveal_with_fuel(hold_total, 5);
        assert(high_ms(beep(), false) == 125);
        assert(hold_total(beep()) == 250);
    }
}

/// How each state sounds, by the clock: starting from a silent buzzer, the
/// time the buzzer is on during one cycle and the cycle's length.  An alarm
/// cycle sounds twice 125 ms within 1125 ms; `Count(n)` sounds `n` beeps of
/// 125 ms each within `250 * n` ms; an error sounds 500 ms; a disarmed
/// cycle is 500 ms of silence.
pub proof fn lemma_alarm_timing(state: AlarmState)
    ensures
        high_ms(pattern_of(state), false) == match state {
            AlarmState::Active => 250,
            AlarmState::Count(n) => 125 * n,
            AlarmState::Error => 500,
            AlarmState::Disarmed => 0,
        },
        hold_total(pattern_of(state)) == match state {
            AlarmState::Active => 1125,
            AlarmState::Count(n) => 250 * n,
            AlarmState::Error => 500,
            AlarmState::Disarmed => 500,
        },
{
    reveal_with_fuel(high_ms, 9);
    reveal_with_fuel(hold_total, 9);
    match state {
        AlarmState::Count(n) => lemma_beep_train_timing(n as nat),
        _ => {},
    }
}

} // verus!
