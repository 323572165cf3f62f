//! What the predictor's model guarantees about learning: decisions repeat
//! for a repeated condition, echoes teach nothing, overrides are learned.

use vstd::prelude::*;
use crate::predictor::key::{capped, key_of, Key, MAX_BRIGHTNESS};
use crate::predictor::{within_tolerance, ControllerView, Entry, SETTLING_WINDOW_MS};

verus! {

/// A report that the brightness was found at `value` at time `at_ms`.
pub struct Report {
    pub value: u8,
    pub at_ms: u64,
}

/// The controller after `reports` have been reconciled in order.
pub open spec fn after_reports(m: ControllerView, reports: Seq<Report>) -> ControllerView
    decreases reports.len(),
{
    if reports.len() == 0 {
        m
    } else {
        after_reports(m, reports.drop_last()).after_report(
            reports.last().value,
            reports.last().at_ms,
        )
    }
}

/// None of `reports` is a manual override: each is an echo when it is reconciled.
pub open spec fn no_override(m: ControllerView, reports: Seq<Report>) -> bool
    decreases reports.len(),
{
    reports.len() > 0 ==> no_override(m, reports.drop_last()) && after_reports(
        m,
        reports.drop_last(),
    ).is_echo(reports.last().value, reports.last().at_ms)
}

/// Reports that are all echoes leave the controller as it was.
pub proof fn lemma_echoes_change_nothing(m: ControllerView, reports: Seq<Report>)
    requires
        no_override(m, reports),
    ensures
        after_reports(m, reports) == m,
    decreases reports.len(),
{
    if reports.len() > 0 {
        lemma_echoes_change_nothing(m, reports.drop_last());
    }
}

/// Idempotent lookup: two decision cycles under the same lighting condition,
/// with no manual override between them, emit the same brightness, whenever
/// they run and whatever the readings within the condition are.
pub proof fn lemma_same_condition_same_decision(
    m: ControllerView,
    luma1: Option<u8>,
    t1: u64,
    reports: Seq<Report>,
    lux2: Option<u64>,
    luma2: Option<u8>,
)
    requires
        no_override(m.after_cycle(luma1, t1), reports),
        key_of(lux2, luma2) == key_of(m.ambient, luma1),
    ensures
        after_reports(m.after_cycle(luma1, t1), reports).with_ambient(lux2).decision(luma2)
            == m.decision(luma1),
{
    lemma_echoes_change_nothing(m.after_cycle(luma1, t1), reports);
}

/// No self-learning: a report that arrives within the settling window of a
/// decision, for the condition the decision was made for, and matches it
/// within the tolerance, teaches nothing: the learned preferences, that of
/// the current condition among them, stay as they were.
pub proof fn lemma_echo_teaches_nothing(
    m: ControllerView,
    luma: Option<u8>,
    emitted_ms: u64,
    value: u8,
    reported_ms: u64,
)
    requires
        m.enabled,
        emitted_ms <= reported_ms <= emitted_ms + SETTLING_WINDOW_MS,
        within_tolerance(value, m.decision(luma)->0),
    ensures
        ({
            let emitted = m.after_cycle(luma, emitted_ms);
            &&& emitted.lesson(value, reported_ms) is None
            &&& emitted.after_report(value, reported_ms) == emitted
            &&& emitted.after_report(value, reported_ms).learned == m.learned
        }),
{
}

/// Learning from override: a report that arrives while no decision is in
/// flight for the current condition, or that differs from the decision in
/// flight by more than the tolerance, becomes the learned preference for the
/// current condition and changes no other. From then on the condition is
/// answered with the reported value.
pub proof fn lemma_override_is_learned(m: ControllerView, value: u8, now_ms: u64)
    requires
        !m.in_flight(now_ms) || !within_tolerance(value, m.last_decision->0.value),
    ensures
        ({
            let after = m.after_report(value, now_ms);
            &&& m.lesson(value, now_ms) == Some(Entry { key: m.key, brightness: capped(value) })
            &&& after.learned.contains_key(m.key)
            &&& after.learned[m.key] == capped(value)
            &&& value <= MAX_BRIGHTNESS ==> after.learned[m.key] == value
            &&& after.brightness_for(m.key) == capped(value)
            &&& forall|k: Key|
                k != m.key ==> (#[trigger] after.learned.contains_key(k) <==> m.learned.contains_key(k))
                    && after.learned[k] == m.learned[k]
        }),
{
}

/// A learned override decides the next cycle under the same condition: once
/// a manual override has been learned for the current condition, an enabled
/// controller emits the reported value whenever that condition recurs.
pub proof fn lemma_override_decides_next_cycle(
    m: ControllerView,
    value: u8,
    now_ms: u64,
    lux: Option<u64>,
    luma: Option<u8>,
)
    requires
        m.enabled,
        !m.is_echo(value, now_ms),
        key_of(lux, luma) == m.key,
    ensures
        m.after_report(value, now_ms).with_ambient(lux).decision(luma) == Some(capped(value)),
{
}

/// Decisions and learned preferences are percentages: a controller whose
/// learned preferences are percentages emits percentages and keeps learning
/// percentages.
pub proof fn lemma_percentages(
    m: ControllerView,
    luma: Option<u8>,
    value: u8,
    now_ms: u64,
    key: Key,
)
    requires
        m.wf(),
    ensures
        m.brightness_for(key) <= MAX_BRIGHTNESS,
        m.decision(luma) matches Some(v) ==> v <= MAX_BRIGHTNESS,
        m.after_cycle(luma, now_ms).wf(),
        m.after_report(value, now_ms).wf(),
        m.with_entry(key, value).wf(),
{
}

/// Learned preferences are never deleted: whatever the controller goes
/// through, a lighting condition that has a preference keeps one.
pub proof fn lemma_preferences_are_kept(
    m: ControllerView,
    lux: Option<u64>,
    luma: Option<u8>,
    value: u8,
    now_ms: u64,
    key: Key,
    known: Key,
)
    requires
        m.learned.contains_key(known),
    ensures
        m.with_ambient(lux).learned.contains_key(known),
        m.after_cycle(luma, now_ms).learned.contains_key(known),
        m.after_report(value, now_ms).learned.contains_key(known),
        m.with_entry(key, value).learned.contains_key(known),
        m.with_ambient(lux).learned == m.learned,
        m.after_cycle(luma, now_ms).learned == m.learned,
{
}

/// A disabled controller never actuates but still learns from every report.
pub proof fn lemma_disabled_still_learns(
    m: ControllerView,
    luma: Option<u8>,
    value: u8,
    now_ms: u64,
)
    requires
        !m.enabled,
        m.last_decision is None,
    ensures
        m.decision(luma) is None,
        m.after_cycle(luma, now_ms).last_decision is None,
        !m.after_cycle(luma, now_ms).enabled,
        m.after_report(value, now_ms).learned == m.learned.insert(m.key, capped(value)),
{
}

} // verus!
