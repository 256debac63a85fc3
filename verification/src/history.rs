//! The running history of the model's answers, and the rule that turns it
//! into an alarm decision.
//!
//! The history holds the last five answers, newest first, each worth 1.0
//! ("someone is lying in bed") or 0.0, and it starts with every slot at the
//! confidence threshold 0.8.  The alarm sounds while the average of the
//! history is strictly above the threshold.  Values are kept in tenths, so
//! that 1.0, 0.8 and 0.0 are the integers 10, 8 and 0.

use vstd::prelude::*;
use crate::sound::AlarmState;

verus! {

/// Number of answers the history remembers.
pub const HISTORY_LEN: usize = 5;

/// The confidence threshold, in tenths (0.8).
pub const CONFIDENCE_TENTHS: u8 = 8;

/// What one answer of the model is worth, in tenths.
pub open spec fn reading_tenths(in_bed: bool) -> u8 {
    if in_bed { 10 } else { 0 }
}

/// Sum of a sequence of tenths.
pub open spec fn sum_tenths(s: Seq<u8>) -> int
    decreases s.len(),
{
    if s.len() == 0 {
        0
    } else {
        s[0] + sum_tenths(s.drop_first())
    }
}

/// Whether the average of `s` lies strictly above the threshold.
pub open spec fn above_threshold(s: Seq<u8>) -> bool {
    sum_tenths(s) > CONFIDENCE_TENTHS * s.len()
}

/// The alarm state that a history calls for.
pub open spec fn decision_for(s: Seq<u8>) -> AlarmState {
    if above_threshold(s) { AlarmState::Active } else { AlarmState::Disarmed }
}

/// The last five answers of the model, newest first.
pub struct ConfidenceHistory {
    tenths: Vec<u8>,
}

impl View for ConfidenceHistory {
    type V = Seq<u8>;

    closed spec fn view(&self) -> Seq<u8> {
        self.tenths@
    }
}

/// Shape of every history: five slots, each 0.0, 0.8 or 1.0.
pub open spec fn well_formed_history(s: Seq<u8>) -> bool {
    &&& s.len() == HISTORY_LEN
    &&& forall|i: int| 0 <= i < s.len() ==> #[trigger] s[i] == 0 || s[i] == 8 || s[i] == 10
}

/// The history before any answer: every slot at the threshold.
pub open spec fn initial_history() -> Seq<u8> {
    seq![8u8, 8u8, 8u8, 8u8, 8u8]
}

/// The history after adding one answer: it goes in front and the oldest
/// slot drops out.
pub open spec fn pushed(s: Seq<u8>, in_bed: bool) -> Seq<u8> {
    seq![reading_tenths(in_bed)] + s.take(HISTORY_LEN - 1)
}

impl ConfidenceHistory {
    #[verifier::type_invariant]
    closed spec fn inv(self) -> bool {
        well_formed_history(self.tenths@)
    }

    /// A history with every slot at the threshold.
    pub fn new() -> (h: Self)
        ensures
            h@ == initial_history(),
    {
        let tenths: Vec<u8> = vec![CONFIDENCE_TENTHS, CONFIDENCE_TENTHS, CONFIDENCE_TENTHS,
            CONFIDENCE_TENTHS, CONFIDENCE_TENTHS];
        assert(tenths@ =~= initial_history());
        ConfidenceHistory { tenths }
    }

    /// Records one answer of the model: `in_bed` is whether it saw someone
    /// lying in bed.
    pub fn push(&mut self, in_bed: bool)
        ensures
            final(self)@ == pushed(old(self)@, in_bed),
    {
        proof {
            use_type_invariant(&*self);
        }
        let mut next: Vec<u8> = Vec::new();
        next.push(if in_bed { 10 } else { 0 });
        for i in 0..HISTORY_LEN - 1
            invariant
                well_formed_history(self.tenths@),
                next@ == seq![reading_tenths(in_bed)] + self.tenths@.take(i as int),
        {
            next.push(self.tenths[i]);
            assert(self.tenths@.take(i + 1) =~= self.tenths@.take(i as int).push(self.tenths@[i as int]));
        }
        assert(next@ =~= pushed(self.tenths@, in_bed));
        self.tenths = next;
    }

    /// Whether the average of the history lies strictly above the threshold.
    pub fn is_confident(&self) -> (confident: bool)
        ensures
            confident == above_threshold(self@),
    {
        proof {
            use_type_invariant(self);
            reveal_with_fuel(sum_tenths, 6);
        }
        let mut total: u32 = 0;
        for i in 0..HISTORY_LEN
            invariant
                well_formed_history(self.tenths@),
                total == sum_tenths(self.tenths@) - sum_tenths(self.tenths@.skip(i as int)),
                total <= 10 * i,
        {
            assert(self.tenths@.skip(i as int).drop_first() =~= self.tenths@.skip(i + 1));
            total = total + self.tenths[i] as u32;
        }
        assert(self.tenths@.skip(HISTORY_LEN as int) =~= Seq::<u8>::empty());
        total > (CONFIDENCE_TENTHS as u32) * (HISTORY_LEN as u32)
    }

    /// The alarm state the history calls for: sounding while the average is
    /// above the threshold, silent otherwise.
    pub fn alarm_decision(&self) -> (state: AlarmState)
        ensures
            state == decision_for(self@),
    {
        proof {
            use_type_invariant(self);
        }
        if self.is_confident() {
            AlarmState::Active
        } else {
            AlarmState::Disarmed
        }
    }
}

} // verus!

verus! {

/// The history after the model gave `readings` (oldest first), starting
/// from a fresh history.
pub open spec fn history_after(readings: Seq<bool>) -> Seq<u8>
    decreases readings.len(),
{
    if readings.len() == 0 {
        initial_history()
    } else {
        pushed(history_after(readings.drop_last()), readings.last())
    }
}

/// The answers a history still remembers: the last five, or all of them
/// while there are fewer.
pub open spec fn recent(readings: Seq<bool>) -> Seq<bool> {
    if readings.len() <= HISTORY_LEN {
        readings
    } else {
        readings.skip(readings.len() - HISTORY_LEN)
    }
}

/// How many answers saw someone lying in bed.
pub open spec fn count_in_bed(readings: Seq<bool>) -> nat
    decreases readings.len(),
{
    if readings.len() == 0 {
        0
    } else {
        (if readings[0] { 1nat } else { 0nat }) + count_in_bed(readings.drop_first())
    }
}

/// A fresh history is the history after no answers, and recording one more
/// answer moves from the history after some answers to the history after
/// those answers and the new one.
pub proof fn lemma_history_after_push(readings: Seq<bool>, in_bed: bool)
    ensures
        history_after(Seq::empty()) == initial_history(),
        history_after(readings.push(in_bed)) == pushed(history_after(readings), in_bed),
{
    assert(readings.push(in_bed).drop_last() =~= readings);
}

/// Slot `i` of the history holds the answer given `i` answers ago, or the
/// threshold while there was no such answer.
proof fn lemma_history_slots(readings: Seq<bool>)
    ensures
        history_after(readings).len() == HISTORY_LEN,
        forall|i: int|
            0 <= i < HISTORY_LEN ==> #[trigger] history_after(readings)[i] == if i
                < readings.len() {
                reading_tenths(readings[readings.len() - 1 - i])
            } else {
                8u8
            },
    decreases readings.len(),
{
    if readings.len() > 0 {
        let prev = readings.drop_last();
        lemma_history_slots(prev);
        assert forall|i: int| 0 <= i < HISTORY_LEN implies #[trigger] history_after(readings)[i]
            == if i < readings.len() {
            reading_tenths(readings[readings.len() - 1 - i])
        } else {
            8u8
        } by {
            if i > 0 {
                assert(history_after(readings)[i] == history_after(prev)[i - 1]);
            }
        }
    }
}

/// The alarm rule.  After any answers, the alarm sounds exactly when more
/// than 80% of the answers the history remembers (the last five, or all of
/// them while there are fewer) saw someone lying in bed.
pub proof fn lemma_alarm_rule(readings: Seq<bool>)
    ensures
        decision_for(history_after(readings)) == AlarmState::Active
            <==> 10 * count_in_bed(recent(readings)) > 8 * recent(readings).len(),
{
    let h = history_after(readings);
    let r = recent(readings);
    let n = readings.len();
    lemma_history_slots(readings);
    reveal_with_fuel(sum_tenths, 6);
    reveal_with_fuel(count_in_bed, 6);
    assert(h.len() == 5);
    let t0 = h[0];
    let t1 = h[1];
    let t2 = h[2];
    let t3 = h[3];
    let t4 = h[4];
    assert(sum_tenths(h) == t0 + t1 + t2 + t3 + t4);
    let m = r.len();
    assert(m == if n <= 5 { n } else { 5 });
    assert forall|j: int| 0 <= j < m implies #[trigger] r[j] == readings[n - m + j] by {}
    if m >= 1 { assert(h[0] == reading_tenths(r[m - 1])); }
    if m >= 2 { assert(h[1] == reading_tenths(r[m - 2])); }
    if m >= 3 { assert(h[2] == reading_tenths(r[m - 3])); }
    if m >= 4 { assert(h[3] == reading_tenths(r[m - 4])); }
    if m >= 5 { assert(h[4] == reading_tenths(r[m - 5])); }
}

/// Once the history is full of answers, the alarm sounds only when all of
/// the last five answers saw someone lying in bed.
pub proof fn lemma_full_history_needs_every_answer(readings: Seq<bool>)
    requires
        readings.len() >= HISTORY_LEN,
    ensures
        decision_for(history_after(readings)) == AlarmState::Active
            <==> forall|i: int| readings.len() - HISTORY_LEN <= i < readings.len() ==> #[trigger] readings[i],
{
    lemma_alarm_rule(readings);
    let r = recent(readings);
    let n = readings.len();
    reveal_with_fuel(count_in_bed, 6);
    assert(r.len() == 5);
    assert forall|j: int| 0 <= j < 5 implies #[trigger] r[j] == readings[n - 5 + j] by {}
    if forall|i: int| n - 5 <= i < n ==> #[trigger] readings[i] {
        assert(r[0] && r[1] && r[2] && r[3] && r[4]);
    } else {
        let k = choose|i: int| n - 5 <= i < n && !#[trigger] readings[i];
        assert(!r[k - (n - 5)]);
    }
}

} // verus!

verus! {

/// Whether every one of `readings` saw someone lying in bed.
pub open spec fn all_in_bed(readings: Seq<bool>) -> bool {
    forall|i: int| 0 <= i < readings.len() ==> #[trigger] readings[i]
}

proof fn lemma_count_in_bed(readings: Seq<bool>)
    ensures
        count_in_bed(readings) <= readings.len(),
        count_in_bed(readings) == readings.len() <==> all_in_bed(readings),
    decreases readings.len(),
{
    if readings.len() > 0 {
        let rest = readings.drop_first();
        lemma_count_in_bed(rest);
        if all_in_bed(readings) {
            assert forall|i: int| 0 <= i < rest.len() implies #[trigger] rest[i] by {
                assert(rest[i] == readings[i + 1]);
            }
        }
        if readings[0] && all_in_bed(rest) {
            assert forall|i: int| 0 <= i < readings.len() implies #[trigger] readings[i] by {
                if i > 0 {
                    assert(readings[i] == rest[i - 1]);
                }
            }
        }
    }
}

/// The alarm rule in plain words: after any answers, the alarm sounds
/// exactly when there is at least one answer and every answer the history
/// remembers (the last five, or all while fewer) saw someone lying in bed.
pub proof fn lemma_alarm_needs_every_remembered_answer(readings: Seq<bool>)
    ensures
        decision_for(history_after(readings)) == AlarmState::Active <==> readings.len() > 0
            && all_in_bed(recent(readings)),
{
    lemma_alarm_rule(readings);
    let r = recent(readings);
    lemma_count_in_bed(r);
    assert(r.len() <= 5);
    assert(r.len() == 0 <==> readings.len() == 0);
}

} // verus!
