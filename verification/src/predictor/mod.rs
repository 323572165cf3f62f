//! The predictor: chooses a brightness for the current lighting condition
//! and learns the preferred brightness for each condition from manual
//! overrides, without mistaking the echo of its own decisions for one.

use std::collections::HashMap;
use vstd::prelude::*;
use crate::predictor::key::{cap, capped, default_brightness, key_of, Key, MAX_BRIGHTNESS};

pub mod key;
pub mod learning;

verus! {

broadcast use vstd::std_specs::hash::group_hash_axioms;

/// How long after a decision a matching report counts as its echo, in milliseconds.
pub const SETTLING_WINDOW_MS: u64 = 1000;

/// How far a report may lie from the decision it echoes, in percentage points.
pub const ECHO_TOLERANCE: u8 = 2;

/// A brightness decision that has been emitted.
#[derive(Clone, Copy, Debug, PartialEq, Eq, Structural)]
pub struct Decision {
    /// The lighting condition it was made for.
    pub key: Key,
    /// The brightness percentage.
    pub value: u8,
    /// When it was emitted, in milliseconds on the caller's clock.
    pub at_ms: u64,
}

/// A learned preference: the brightness the user chose under a lighting condition.
#[derive(Clone, Copy, Debug, PartialEq, Eq, Structural)]
pub struct Entry {
    pub key: Key,
    pub brightness: u8,
}

/// Two percentages lie within the echo tolerance of each other.
pub open spec fn within_tolerance(a: u8, b: u8) -> bool {
    a - b <= ECHO_TOLERANCE && b - a <= ECHO_TOLERANCE
}

impl Decision {
    /// The decision is still settling at `now_ms`: it was emitted no later
    /// than that and no longer than the settling window before.
    pub open spec fn settling(self, now_ms: u64) -> bool {
        self.at_ms <= now_ms && now_ms - self.at_ms <= SETTLING_WINDOW_MS
    }
}

/// Mathematical model of a [`Controller`].
#[verifier::ext_equal]
pub struct ControllerView {
    /// Whether decisions are emitted at all.
    pub enabled: bool,
    /// The last ambient light reading, if the source had one.
    pub ambient: Option<u64>,
    /// The lighting condition of the last decision cycle.
    pub key: Key,
    /// The learned preferences, at most one for each lighting condition.
    pub learned: Map<Key, u8>,
    /// The last decision emitted.
    pub last_decision: Option<Decision>,
}

impl ControllerView {
    /// A controller that has seen nothing and learned nothing.
    pub open spec fn initial(enabled: bool) -> ControllerView {
        ControllerView {
            enabled,
            ambient: None,
            key: key_of(None, None),
            learned: Map::empty(),
            last_decision: None,
        }
    }

    /// Every learned brightness is a percentage.
    pub open spec fn wf(self) -> bool {
        forall|k: Key| #[trigger] self.learned.contains_key(k) ==> self.learned[k] <= MAX_BRIGHTNESS
    }

    /// The brightness for a lighting condition: the learned preference where
    /// there is one, the default otherwise.
    pub open spec fn brightness_for(self, key: Key) -> u8 {
        if self.learned.contains_key(key) {
            self.learned[key]
        } else {
            default_brightness(key)
        }
    }

    /// The controller after `brightness` has been stored for `key`.
    pub open spec fn with_entry(self, key: Key, brightness: u8) -> ControllerView {
        ControllerView { learned: self.learned.insert(key, capped(brightness)), ..self }
    }

    /// The controller after an ambient light reading.
    pub open spec fn with_ambient(self, lux: Option<u64>) -> ControllerView {
        ControllerView { ambient: lux, ..self }
    }

    /// The decision that a cycle with this luminance emits: the brightness
    /// for the condition made of the last ambient reading and the luminance,
    /// or none while the controller is disabled.
    pub open spec fn decision(self, luma: Option<u8>) -> Option<u8> {
        if self.enabled {
            Some(self.brightness_for(key_of(self.ambient, luma)))
        } else {
            None
        }
    }

    /// The controller after a decision cycle at `now_ms`: the condition is
    /// the current one, and the decision, if one was emitted, is in flight.
    pub open spec fn after_cycle(self, luma: Option<u8>, now_ms: u64) -> ControllerView {
        let key = key_of(self.ambient, luma);
        ControllerView {
            key,
            last_decision: match self.decision(luma) {
                Some(value) => Some(Decision { key, value, at_ms: now_ms }),
                None => self.last_decision,
            },
            ..self
        }
    }

    /// A decision for the current condition is in flight at `now_ms`.
    pub open spec fn in_flight(self, now_ms: u64) -> bool {
        self.last_decision matches Some(d) && d.key == self.key && d.settling(now_ms)
    }

    /// A report of `value` at `now_ms` is the echo of the controller's own
    /// decision: one is in flight for the current condition and the value
    /// matches it within the tolerance.
    pub open spec fn is_echo(self, value: u8, now_ms: u64) -> bool {
        self.in_flight(now_ms) && within_tolerance(value, self.last_decision->0.value)
    }

    /// What a report teaches: nothing if it is an echo, otherwise the
    /// reported value as the preference for the current condition.
    pub open spec fn lesson(self, value: u8, now_ms: u64) -> Option<Entry> {
        if self.is_echo(value, now_ms) {
            None
        } else {
            Some(Entry { key: self.key, brightness: capped(value) })
        }
    }

    /// The controller after a report of `value` at `now_ms`.
    pub open spec fn after_report(self, value: u8, now_ms: u64) -> ControllerView {
        match self.lesson(value, now_ms) {
            Some(entry) => self.with_entry(entry.key, entry.brightness),
            None => self,
        }
    }
}

/// The learning and decision core.
///
/// The controller performs no input or output. Its owner polls the ambient
/// light source and hands over the reading, pushes each luminance sample,
/// sends on the decision that comes back, hands over each report of a
/// manual change, and persists the entry that a report teaches.
pub struct Controller {
    enabled: bool,
    ambient: Option<u64>,
    key: Key,
    learned: HashMap<u64, u8>,
    last_decision: Option<Decision>,
}

/// The learned preferences by key, as stored by the keys' numbers.
spec fn by_key(stored: Map<u64, u8>) -> Map<Key, u8> {
    Map::new(|k: Key| stored.contains_key(k.spec_code()), |k: Key| stored[k.spec_code()])
}

impl View for Controller {
    type V = ControllerView;

    closed spec fn view(&self) -> ControllerView {
        ControllerView {
            enabled: self.enabled,
            ambient: self.ambient,
            key: self.key,
            learned: by_key(self.learned@),
            last_decision: self.last_decision,
        }
    }
}

impl Controller {
    #[verifier::type_invariant]
    spec fn inv(self) -> bool {
        forall|c: u64| #[trigger] self.learned@.contains_key(c) ==> self.learned@[c] <= MAX_BRIGHTNESS
    }

    /// A controller that has seen nothing and learned nothing. While it is
    /// not `enabled` it learns from reports but emits no decision.
    pub fn new(enabled: bool) -> (controller: Controller)
        ensures
            controller@ == ControllerView::initial(enabled),
            controller@.wf(),
    {
        let controller = Controller {
            enabled,
            ambient: None,
            key: Key::new(None, None),
            learned: HashMap::new(),
            last_decision: None,
        };
        assert(by_key(controller.learned@) =~= Map::empty());
        controller
    }

    /// Whether decisions are emitted.
    pub fn enabled(&self) -> (enabled: bool)
        ensures
            enabled == self@.enabled,
    {
        self.enabled
    }

    /// The lighting condition of the last decision cycle.
    pub fn key(&self) -> (key: Key)
        ensures
            key == self@.key,
    {
        self.key
    }

    /// The last ambient light reading.
    pub fn ambient(&self) -> (lux: Option<u64>)
        ensures
            lux == self@.ambient,
    {
        self.ambient
    }

    /// The last decision emitted.
    pub fn last_decision(&self) -> (decision: Option<Decision>)
        ensures
            decision == self@.last_decision,
    {
        self.last_decision
    }

    /// The learned preference for `key`, if there is one.
    pub fn get(&self, key: Key) -> (brightness: Option<u8>)
        ensures
            brightness == (if self@.learned.contains_key(key) {
                Some(self@.learned[key])
            } else {
                None
            }),
            brightness matches Some(b) ==> b <= MAX_BRIGHTNESS,
            self@.wf(),
    {
        proof {
            use_type_invariant(self);
        }
        let code: u64 = key.code();
        match self.learned.get(&code) {
            Some(b) => Some(*b),
            None => None,
        }
    }

    /// Stores `brightness`, capped at [`MAX_BRIGHTNESS`], as the preference
    /// for `key`, in place of any earlier one.
    pub fn set(&mut self, key: Key, brightness: u8)
        ensures
            final(self)@ == old(self)@.with_entry(key, brightness),
            final(self)@.wf(),
    {
        proof {
            use_type_invariant(&*self);
        }
        let ghost before = self.learned@;
        let mut learned: HashMap<u64, u8> = HashMap::new();
        core::mem::swap(&mut self.learned, &mut learned);
        learned.insert(key.code(), cap(brightness));
        proof {
            assert(by_key(learned@) =~= by_key(before).insert(key, capped(brightness))) by {
                assert forall|k: Key| k.spec_code() == key.spec_code() implies k == key by {
                    key::lemma_code_injective(k, key);
                }
            }
        }
        core::mem::swap(&mut self.learned, &mut learned);
    }

    /// Records an ambient light reading, `None` if the source had none. The
    /// next decision cycle uses it.
    pub fn observe_ambient(&mut self, lux: Option<u64>)
        ensures
            final(self)@ == old(self)@.with_ambient(lux),
            final(self)@.wf(),
    {
        proof {
            use_type_invariant(&*self);
            self.lemma_view_wf();
        }
        self.ambient = lux;
    }

    /// Runs one decision cycle for a luminance sample, `None` if no frame
    /// is captured, at time `now_ms`.
    ///
    /// Returns the brightness to emit: the learned preference for the
    /// current lighting condition, or its default where nothing has been
    /// learned; `None` while the controller is disabled.
    pub fn push_luma(&mut self, luma: Option<u8>, now_ms: u64) -> (decision: Option<u8>)
        ensures
            decision == old(self)@.decision(luma),
            final(self)@ == old(self)@.after_cycle(luma, now_ms),
            decision matches Some(value) ==> value <= MAX_BRIGHTNESS,
            final(self)@.wf(),
    {
        proof {
            use_type_invariant(&*self);
            self.lemma_view_wf();
        }
        let key = Key::new(self.ambient, luma);
        if self.enabled {
            let value: u8 = match self.get(key) {
                Some(learned) => learned,
                None => key.default_brightness(),
            };
            self.key = key;
            self.last_decision = Some(Decision { key, value, at_ms: now_ms });
            Some(value)
        } else {
            self.key = key;
            None
        }
    }

    /// Whether a decision for the current lighting condition is in flight
    /// at `now_ms`: emitted no later than that and no longer than the
    /// settling window before.
    pub fn in_flight(&self, now_ms: u64) -> (in_flight: bool)
        ensures
            in_flight == self@.in_flight(now_ms),
    {
        match self.last_decision {
            Some(d) => d.key == self.key && d.at_ms <= now_ms && now_ms - d.at_ms
                <= SETTLING_WINDOW_MS,
            None => false,
        }
    }

    /// Whether a report of `value` at `now_ms` is the echo of the last
    /// decision: the decision is in flight and the value matches it within
    /// the tolerance.
    pub fn is_echo(&self, value: u8, now_ms: u64) -> (echo: bool)
        ensures
            echo == self@.is_echo(value, now_ms),
    {
        match self.last_decision {
            Some(d) => self.in_flight(now_ms) && (if value >= d.value {
                value - d.value <= ECHO_TOLERANCE
            } else {
                d.value - value <= ECHO_TOLERANCE
            }),
            None => false,
        }
    }

    /// Reconciles a report that the brightness was found at `value` at time
    /// `now_ms` without the brightness controller having set it.
    ///
    /// The echo of the last decision teaches nothing. Any other report is a
    /// manual override: its value, capped at [`MAX_BRIGHTNESS`], becomes the
    /// preference for the current lighting condition, and is returned for
    /// the caller to persist.
    pub fn report(&mut self, value: u8, now_ms: u64) -> (learned: Option<Entry>)
        ensures
            learned == old(self)@.lesson(value, now_ms),
            final(self)@ == old(self)@.after_report(value, now_ms),
            final(self)@.wf(),
    {
        if self.is_echo(value, now_ms) {
            proof {
                use_type_invariant(&*self);
                self.lemma_view_wf();
            }
            None
        } else {
            let entry = Entry { key: self.key, brightness: cap(value) };
            self.set(entry.key, entry.brightness);
            Some(entry)
        }
    }

    proof fn lemma_view_wf(&self)
        requires
            self.inv(),
        ensures
            self@.wf(),
    {
    }
}

} // verus!
