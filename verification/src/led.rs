//! The status light: how many times it flashes per second in each state, and
//! what the light's worker does on each tick.

use vstd::prelude::*;
use crate::inbox::Inbox;
use crate::pin::{
    PinCommand, drives, high_ms, hold_total, lemma_commands_concat, lemma_high_concat,
    lemma_pairs_concat, level_after, on_off_pairs,
};

verus! {

/// Number of flash slots in one second.
pub const FLASH_PER_S: u8 = 5;

/// What the status light is currently showing.
#[derive(Debug, Clone, Copy, PartialEq, Eq, Structural)]
pub enum LEDState {
    Sleep,
    Wait,
    Startup,
}

/// Flashes per second shown for a state.
pub open spec fn flashes_of(state: LEDState) -> nat {
    match state {
        LEDState::Sleep => 1,
        LEDState::Wait => 3,
        LEDState::Startup => 5,
    }
}

impl LEDState {
    /// The state the light's worker starts in, before any request: the
    /// startup show.
    pub fn worker_start() -> (s: LEDState)
        ensures
            s == LEDState::Startup,
    {
        LEDState::Startup
    }

    /// How many of the `FLASH_PER_S` slots of a second light up.
    pub fn num_flashes(&self) -> (n: u8)
        ensures
            n == flashes_of(*self),
            n <= FLASH_PER_S,
    {
        match self {
            LEDState::Sleep => 1,
            LEDState::Wait => 3,
            LEDState::Startup => 5,
        }
    }
}

} // verus!

verus! {

/// Length of one flash slot, in milliseconds.
pub open spec fn slot_ms() -> nat {
    1000nat / (FLASH_PER_S as nat)
}

/// One flash: on for half a slot, then off for half a slot.
pub open spec fn flash() -> Seq<PinCommand> {
    seq![
        PinCommand::Drive(true),
        PinCommand::Hold((slot_ms() / 2) as u64),
        PinCommand::Drive(false),
        PinCommand::Hold((slot_ms() / 2) as u64),
    ]
}

/// `n` flashes in a row.
pub open spec fn flash_train(n: nat) -> Seq<PinCommand>
    decreases n,
{
    if n == 0 {
        seq![]
    } else {
        flash_train((n - 1) as nat) + flash()
    }
}

/// How long the light stays dark after its flashes: the unused slots.
pub open spec fn dormant_ms(state: LEDState) -> u64 {
    (slot_ms() * (FLASH_PER_S - flashes_of(state))) as u64
}

/// The second of blinking that shows `state`: its flashes, then darkness
/// for the remaining slots.
pub open spec fn blink_pattern(state: LEDState) -> Seq<PinCommand> {
    flash_train(flashes_of(state)) + seq![PinCommand::Hold(dormant_ms(state))]
}

/// One second of blinking: the state shown and the commands to the light's
/// pin.
pub struct BlinkCycle {
    pub state: LEDState,
    pub commands: Vec<PinCommand>,
}

/// What one look at the inbox gives: the state shown for the next second
/// and its commands, or `None` when the worker stops.
pub open spec fn blink_effect(current: LEDState, inbox: Inbox<LEDState>) -> Option<(LEDState, Seq<PinCommand>)> {
    match inbox {
        Inbox::Closed => None,
        Inbox::Empty => Some((current, blink_pattern(current))),
        Inbox::Update(requested) => Some((requested, blink_pattern(requested))),
    }
}

/// What a result of `blink_step` amounts to.
pub open spec fn cycle_outcome(next: Option<BlinkCycle>) -> Option<(LEDState, Seq<PinCommand>)> {
    match next {
        Some(c) => Some((c.state, c.commands@)),
        None => None,
    }
}

/// One tick of the light's worker.  It takes the oldest waiting request if
/// there is one, keeps the current state otherwise, and stops once nobody
/// can send it requests any more.  `None` means the worker ends.
pub fn blink_step(current: LEDState, inbox: Inbox<LEDState>) -> (next: Option<BlinkCycle>)
    ensures
        cycle_outcome(next) == blink_effect(current, inbox),
{
    let state = match inbox {
        Inbox::Closed => {
            return None;
        },
        Inbox::Empty => current,
        Inbox::Update(requested) => requested,
    };
    let num_flash = state.num_flashes();
    let num_dormant = FLASH_PER_S - num_flash;
    let slot: u64 = 1000 / (FLASH_PER_S as u64);
    assert(slot == 200);
    let half: u64 = slot / 2;
    let mut commands: Vec<PinCommand> = Vec::new();
    for i in 0..num_flash
        invariant
            half == slot_ms() / 2,
            commands@ == flash_train(i as nat),
    {
        commands.push(PinCommand::Drive(true));
        commands.push(PinCommand::Hold(half));
        commands.push(PinCommand::Drive(false));
        commands.push(PinCommand::Hold(half));
        assert(commands@ =~= flash_train(i as nat) + flash());
    }
    commands.push(PinCommand::Hold(slot * (num_dormant as u64)));
    assert(commands@ =~= blink_pattern(state));
    Some(BlinkCycle { state, commands })
}

proof fn lemma_flash_train(n: nat)
    ensures
        hold_total(flash_train(n)) == 2 * (slot_ms() / 2) * n,
        on_off_pairs(drives(flash_train(n))),
        drives(flash_train(n)).len() == 2 * n,
    decreases n,
{
    if n > 0 {
        lemma_flash_train((n - 1) as nat);
        lemma_commands_concat(flash_train((n - 1) as nat), flash());
        reveal_with_fuel(drives, 5);
        reveal_with_fuel(hold_total, 5);
        assert(drives(flash()) =~= seq![true, false]);
        lemma_pairs_concat(drives(flash_train((n - 1) as nat)), drives(flash()));
        let h = 2 * (slot_ms() / 2);
        assert(h * (n - 1) + h == h * n) by (nonlinear_arith);
    } else {
        assert(drives(flash_train(0)) =~= Seq::<bool>::empty());
    }
}

/// Whatever the light shows, one blink cycle fills exactly one second, and
/// it flashes on then off, leaving the light off.
pub proof fn lemma_blink_cycle_fills_one_second(state: LEDState)
    ensures
        hold_total(blink_pattern(state)) == 1000,
        on_off_pairs(drives(blink_pattern(state))),
        drives(blink_pattern(state)).len() == 2 * flashes_of(state),
{
    let n = flashes_of(state);
    lemma_flash_train(n);
    lemma_commands_concat(flash_train(n), seq![PinCommand::Hold(dormant_ms(state))]);
    reveal_with_fuel(drives, 2);
    reveal_with_fuel(hold_total, 2);
    assert(seq![PinCommand::Hold(dormant_ms(state))].drop_last() =~= Seq::<PinCommand>::empty());
    assert(drives(seq![PinCommand::Hold(dormant_ms(state))]) =~= Seq::<bool>::empty());
    assert(drives(flash_train(n)) + Seq::<bool>::empty() =~= drives(flash_train(n)));
    assert(slot_ms() == 200);
    match state {
        LEDState::Sleep => {
            assert(FLASH_PER_S - flashes_of(state) == 4);
            assert(slot_ms() * 4 == 800);
        },
        LEDState::Wait => {
            assert(FLASH_PER_S - flashes_of(state) == 2);
            assert(slot_ms() * 2 == 400);
        },
        LEDState::Startup => {
            assert(FLASH_PER_S - flashes_of(state) == 0);
        },
    }
}

/// What the light's worker does, starting in `state`, when its looks at the
/// inbox find `inboxes` in turn: the states it shows, one per second, the
/// commands it sends to the light, and the state it holds afterwards
/// (`None` once it stopped).
pub open spec fn light_run(state: LEDState, inboxes: Seq<Inbox<LEDState>>) -> (Seq<LEDState>, Seq<PinCommand>, Option<LEDState>)
    decreases inboxes.len(),
{
    if inboxes.len() == 0 {
        (seq![], seq![], Some(state))
    } else {
        let (shown, sent, held) = light_run(state, inboxes.drop_last());
        match held {
            None => (shown, sent, None),
            Some(s) => match blink_effect(s, inboxes.last()) {
                None => (shown, sent, None),
                Some((t, commands)) => (shown.push(t), sent + commands, Some(t)),
            },
        }
    }
}

/// Requests `updates`, one waiting at each look.
pub open spec fn as_light_updates(updates: Seq<LEDState>) -> Seq<Inbox<LEDState>> {
    updates.map_values(|u: LEDState| Inbox::Update(u))
}

/// The light takes one request per second: queued requests are shown one
/// after the other, each for one full second, and the light flashes on and
/// off, ending off.
pub proof fn lemma_one_request_per_second(state: LEDState, updates: Seq<LEDState>)
    ensures
        light_run(state, as_light_updates(updates)).0 == updates,
        hold_total(light_run(state, as_light_updates(updates)).1) == 1000 * updates.len(),
        on_off_pairs(drives(light_run(state, as_light_updates(updates)).1)),
        light_run(state, as_light_updates(updates)).2 is Some,
    decreases updates.len(),
{
    let q = as_light_updates(updates);
    if updates.len() > 0 {
        let prev = updates.drop_last();
        assert(q.drop_last() =~= as_light_updates(prev));
        assert(q.last() == Inbox::Update(updates.last()));
        lemma_one_request_per_second(state, prev);
        let sent = light_run(state, as_light_updates(prev)).1;
        let u = updates.last();
        lemma_blink_cycle_fills_one_second(u);
        lemma_commands_concat(sent, blink_pattern(u));
        lemma_pairs_concat(drives(sent), drives(blink_pattern(u)));
        assert(prev.push(u) =~= updates);
        assert(1000 * prev.len() + 1000 == 1000 * updates.len());
    } else {
        assert(drives(Seq::<PinCommand>::empty()) =~= Seq::<bool>::empty());
    }
}

/// However requests arrive, the light is driven on, off, on, off, ...,
/// starting with on and ending off after every second.
pub proof fn lemma_light_alternates(state: LEDState, inboxes: Seq<Inbox<LEDState>>)
    ensures
        on_off_pairs(drives(light_run(state, inboxes).1)),
    decreases inboxes.len(),
{
    if inboxes.len() == 0 {
        assert(drives(Seq::<PinCommand>::empty()) =~= Seq::<bool>::empty());
    } else {
        lemma_light_alternates(state, inboxes.drop_last());
        let (shown, sent, held) = light_run(state, inboxes.drop_last());
        if let Some(s) = held {
            if let Some((t, commands)) = blink_effect(s, inboxes.last()) {
                lemma_blink_cycle_fills_one_second(t);
                lemma_commands_concat(sent, commands);
                lemma_pairs_concat(drives(sent), drives(commands));
            }
        }
    }
}

} // verus!

verus! {

proof fn lemma_flash_train_lit(n: nat)
    ensures
        high_ms(flash_train(n), false) == 100 * n,
        !level_after(flash_train(n), false),
    decreases n,
{
    if n > 0 {
        let prev = flash_train((n - 1) as nat);
        lemma_flash_train_lit((n - 1) as nat);
        lemma_high_concat(prev, flash(), false);
        reveal_with_fuel(high_ms, 5);
        reveal_with_fuel(level_after, 5);
        assert(slot_ms() == 200);
        assert(high_ms(flash(), false) == 100);
    }
}

/// Starting dark, the light is lit for 100 ms per flash in each second:
/// each flash is on for half a slot.
pub proof fn lemma_light_lit_time(state: LEDState)
    ensures
        high_ms(blink_pattern(state), false) == 100 * flashes_of(state),
        !level_after(blink_pattern(state), false),
{
    let n = flashes_of(state);
    lemma_flash_train_lit(n);
    lemma_high_concat(flash_train(n), seq![PinCommand::Hold(dormant_ms(state))], false);
    reveal_with_fuel(high_ms, 2);
    reveal_with_fuel(level_after, 2);
    assert(seq![PinCommand::Hold(dormant_ms(state))].drop_first() =~= Seq::<PinCommand>::empty());
}

} // verus!
