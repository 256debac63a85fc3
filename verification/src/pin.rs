//! Instructions to an output pin (the buzzer's or the status light's), and
//! facts about lists of them.

use vstd::prelude::*;

verus! {

/// One instruction to an output pin.
#[derive(Debug, Clone, Copy, PartialEq, Eq, Structural)]
pub enum PinCommand {
    /// Drive the pin high (`true`) or low (`false`).
    Drive(bool),
    /// Keep everything as it is for this many milliseconds.
    Hold(u64),
}

/// The drives among `commands`, in order.
pub open spec fn drives(commands: Seq<PinCommand>) -> Seq<bool>
    decreases commands.len(),
{
    if commands.len() == 0 {
        seq![]
    } else {
        drives(commands.drop_last()) + match commands.last() {
            PinCommand::Drive(on) => seq![on],
            PinCommand::Hold(_) => Seq::<bool>::empty(),
        }
    }
}

/// Milliseconds that `commands` hold for, in all.
pub open spec fn hold_total(commands: Seq<PinCommand>) -> int
    decreases commands.len(),
{
    if commands.len() == 0 {
        0
    } else {
        hold_total(commands.drop_last()) + match commands.last() {
            PinCommand::Drive(_) => 0int,
            PinCommand::Hold(ms) => ms as int,
        }
    }
}

/// Drives that go high, low, high, low, ..., ending low.
pub open spec fn on_off_pairs(d: Seq<bool>) -> bool {
    &&& d.len() % 2 == 0
    &&& forall|i: int| 0 <= i < d.len() ==> #[trigger] d[i] == (i % 2 == 0)
}

/// Drives and hold times of two lists run one after the other.
pub proof fn lemma_commands_concat(a: Seq<PinCommand>, b: Seq<PinCommand>)
    ensures
        drives(a + b) == drives(a) + drives(b),
        hold_total(a + b) == hold_total(a) + hold_total(b),
    decreases b.len(),
{
    if b.len() == 0 {
        assert(a + b =~= a);
        assert(drives(a) + drives(b) =~= drives(a));
    } else {
        assert((a + b).drop_last() =~= a + b.drop_last());
        assert((a + b).last() == b.last());
        lemma_commands_concat(a, b.drop_last());
        let tail = match b.last() {
            PinCommand::Drive(on) => seq![on],
            PinCommand::Hold(_) => Seq::<bool>::empty(),
        };
        assert(drives(a) + drives(b.drop_last()) + tail =~= drives(a) + (drives(b.drop_last()) + tail));
    }
}

/// High/low pairs followed by high/low pairs are high/low pairs.
pub proof fn lemma_pairs_concat(a: Seq<bool>, b: Seq<bool>)
    requires
        on_off_pairs(a),
        on_off_pairs(b),
    ensures
        on_off_pairs(a + b),
{
    let c = a + b;
    assert forall|i: int| 0 <= i < c.len() implies #[trigger] c[i] == (i % 2 == 0) by {
        if i >= a.len() {
            let j = i - a.len();
            assert(b[j] == (j % 2 == 0));
            let l = a.len() as int;
            assert((i - l) % 2 == i % 2) by (nonlinear_arith)
                requires
                    l % 2 == 0,
                    l >= 0,
            ;
        }
    }
}

} // verus!

verus! {

/// Whether the pin is high after running `commands`, starting high
/// (`true`) or low (`false`).
pub open spec fn level_after(commands: Seq<PinCommand>, level: bool) -> bool
    decreases commands.len(),
{
    if commands.len() == 0 {
        level
    } else {
        let next = match commands[0] {
            PinCommand::Drive(on) => on,
            PinCommand::Hold(_) => level,
        };
        level_after(commands.drop_first(), next)
    }
}

/// Milliseconds during which the pin is high while running `commands`,
/// starting high (`true`) or low (`false`).
pub open spec fn high_ms(commands: Seq<PinCommand>, level: bool) -> int
    decreases commands.len(),
{
    if commands.len() == 0 {
        0
    } else {
        match commands[0] {
            PinCommand::Drive(on) => high_ms(commands.drop_first(), on),
            PinCommand::Hold(ms) => (if level { ms as int } else { 0int }) + high_ms(
                commands.drop_first(),
                level,
            ),
        }
    }
}

/// Running two lists of commands one after the other.
pub proof fn lemma_high_concat(a: Seq<PinCommand>, b: Seq<PinCommand>, level: bool)
    ensures
        level_after(a + b, level) == level_after(b, level_after(a, level)),
        high_ms(a + b, level) == high_ms(a, level) + high_ms(b, level_after(a, level)),
    decreases a.len(),
{
    if a.len() == 0 {
        assert(a + b =~= b);
    } else {
        assert((a + b).drop_first() =~= a.drop_first() + b);
        let next = match a[0] {
            PinCommand::Drive(on) => on,
            PinCommand::Hold(_) => level,
        };
        lemma_high_concat(a.drop_first(), b, next);
    }
}

} // verus!
