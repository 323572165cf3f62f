//! Lighting conditions: how ambient light and content luminance are
//! discretized into a key, and the brightness chosen for a key that has no
//! learned preference yet.

use vstd::prelude::*;

verus! {

/// Highest level of either signal.
pub const MAX_LEVEL: u8 = 5;

/// Highest brightness percentage.
pub const MAX_BRIGHTNESS: u8 = 100;

/// A discretized lighting condition.
///
/// Each signal is reduced to a level: 0 when the signal is unavailable,
/// otherwise 1 to [`MAX_LEVEL`], rising with the signal.
#[derive(Clone, Copy, Debug, PartialEq, Eq, Hash, Structural)]
pub struct Key {
    /// Ambient light: 1 dark, 2 dim, 3 normal, 4 bright, 5 outdoors.
    pub lux_level: u8,
    /// Content luminance: 1 for the darkest fifth to 5 for the brightest.
    pub luma_level: u8,
}

/// The level of an ambient light reading: its decimal order of magnitude.
pub open spec fn lux_level(lux: Option<u64>) -> u8 {
    match lux {
        None => 0,
        Some(l) => if l < 10 {
            1
        } else if l < 100 {
            2
        } else if l < 1000 {
            3
        } else if l < 10000 {
            4
        } else {
            5
        },
    }
}

/// The level of a luminance percentage: the fifth of the scale it falls in.
pub open spec fn luma_level(luma: Option<u8>) -> u8 {
    match luma {
        None => 0,
        Some(p) => if p < 20 {
            1
        } else if p < 40 {
            2
        } else if p < 60 {
            3
        } else if p < 80 {
            4
        } else {
            5
        },
    }
}

/// The key of a pair of readings.
pub open spec fn key_of(lux: Option<u64>, luma: Option<u8>) -> Key {
    Key { lux_level: lux_level(lux), luma_level: luma_level(luma) }
}

/// The share of the default brightness that ambient light decides. Without
/// an ambient signal it is that of normal light.
pub open spec fn ambient_base(level: u8) -> int {
    if level == 0 {
        50
    } else {
        20 * level - 10
    }
}

/// The share of the default brightness that content decides. Without a
/// luminance it is that of the middle of the scale.
pub open spec fn content_boost(level: u8) -> int {
    if level == 0 {
        6
    } else {
        3 * (level - 1)
    }
}

/// The brightness for a key without a learned preference: the two shares
/// added up and capped at [`MAX_BRIGHTNESS`].
pub open spec fn default_brightness(key: Key) -> u8 {
    let raw = ambient_base(key.lux_level) + content_boost(key.luma_level);
    if raw > MAX_BRIGHTNESS {
        MAX_BRIGHTNESS
    } else {
        raw as u8
    }
}

/// A percentage capped at [`MAX_BRIGHTNESS`].
pub open spec fn capped(value: u8) -> u8 {
    if value > MAX_BRIGHTNESS {
        MAX_BRIGHTNESS
    } else {
        value
    }
}

/// The first ambient reading is no higher than the second, or both are unavailable.
pub open spec fn lux_no_higher(a: Option<u64>, b: Option<u64>) -> bool {
    match (a, b) {
        (Some(x), Some(y)) => x <= y,
        (None, None) => true,
        _ => false,
    }
}

/// The first luminance is no higher than the second, or both are unavailable.
pub open spec fn luma_no_higher(a: Option<u8>, b: Option<u8>) -> bool {
    match (a, b) {
        (Some(x), Some(y)) => x <= y,
        (None, None) => true,
        _ => false,
    }
}

impl Key {
    /// Both levels are in range.
    pub open spec fn wf(self) -> bool {
        self.lux_level <= MAX_LEVEL && self.luma_level <= MAX_LEVEL
    }

    /// The number under which the key is stored.
    pub open spec fn spec_code(self) -> u64 {
        (self.lux_level * 256 + self.luma_level) as u64
    }

    /// Discretizes a pair of readings.
    pub fn new(lux: Option<u64>, luma: Option<u8>) -> (key: Key)
        ensures
            key == key_of(lux, luma),
            key.wf(),
    {
        let lux_level: u8 = match lux {
            None => 0,
            Some(l) => if l < 10 {
                1
            } else if l < 100 {
                2
            } else if l < 1000 {
                3
            } else if l < 10000 {
                4
            } else {
                5
            },
        };
        let luma_level: u8 = match luma {
            None => 0,
            Some(p) => if p < 20 {
                1
            } else if p < 40 {
                2
            } else if p < 60 {
                3
            } else if p < 80 {
                4
            } else {
                5
            },
        };
        Key { lux_level, luma_level }
    }

    /// The number under which the key is stored.
    pub fn code(&self) -> (code: u64)
        ensures
            code == self.spec_code(),
    {
        self.lux_level as u64 * 256 + self.luma_level as u64
    }

    /// The brightness for this key while no preference has been learned for it.
    pub fn default_brightness(&self) -> (brightness: u8)
        ensures
            brightness == default_brightness(*self),
            brightness <= MAX_BRIGHTNESS,
    {
        let base: u32 = if self.lux_level == 0 {
            50
        } else {
            20 * (self.lux_level as u32) - 10
        };
        let boost: u32 = if self.luma_level == 0 {
            6
        } else {
            3 * (self.luma_level as u32 - 1)
        };
        let raw: u32 = base + boost;
        if raw > MAX_BRIGHTNESS as u32 {
            MAX_BRIGHTNESS
        } else {
            raw as u8
        }
    }
}

/// Caps a percentage at [`MAX_BRIGHTNESS`].
pub fn cap(value: u8) -> (c: u8)
    ensures
        c == capped(value),
        c <= MAX_BRIGHTNESS,
{
    if value > MAX_BRIGHTNESS {
        MAX_BRIGHTNESS
    } else {
        value
    }
}

/// Distinct keys are stored under distinct numbers.
pub proof fn lemma_code_injective(a: Key, b: Key)
    requires
        a.spec_code() == b.spec_code(),
    ensures
        a == b,
{
}

/// The default brightness is a percentage.
pub proof fn lemma_default_bounded(key: Key)
    ensures
        default_brightness(key) <= MAX_BRIGHTNESS,
        default_brightness(key) == ambient_base(key.lux_level) + content_boost(key.luma_level)
            || default_brightness(key) == MAX_BRIGHTNESS,
{
}

/// Levels rise with the readings.
pub proof fn lemma_levels_monotone(lux1: u64, lux2: u64, luma1: u8, luma2: u8)
    ensures
        lux1 <= lux2 ==> lux_level(Some(lux1)) <= lux_level(Some(lux2)),
        luma1 <= luma2 ==> luma_level(Some(luma1)) <= luma_level(Some(luma2)),
{
}

/// The default brightness is monotonic: more ambient light or brighter
/// content never lowers it. A signal that is unavailable in one condition is
/// unavailable in the other.
pub proof fn lemma_default_monotone(
    lux1: Option<u64>,
    luma1: Option<u8>,
    lux2: Option<u64>,
    luma2: Option<u8>,
)
    requires
        lux_no_higher(lux1, lux2),
        luma_no_higher(luma1, luma2),
    ensures
        default_brightness(key_of(lux1, luma1)) <= default_brightness(key_of(lux2, luma2)),
{
}

} // verus!
