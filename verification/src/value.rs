//! Normalised state of a group, and the two scales of a shade motor.
//!
//! A level is a fraction of the full range, counted in steps of 1/65535:
//! 0 stands for 0.0 and 65535 for 1.0. Every `u16` is a level, so a level
//! never leaves the range.

use vstd::prelude::*;

use crate::action::{Action, action_from_scene};
use crate::kind::Type;

verus! {

/// The largest level: fully on, fully closed, fully tilted.
pub const FULL: u16 = 65535;

/// How many level steps make one step of the tilt scale that is written.
pub const ANGLE_STEP: u16 = 257;

/// The state of a group: what is read from it and what is asked of it.
#[derive(Clone, Copy, Debug, PartialEq, Eq, Structural)]
pub enum Value {
    /// Brightness of a light group.
    Light(u16),
    /// Closing amount and tilt of a shade group.
    Shadow(u16, u16),
    /// Nothing is known.
    Unknown,
}

/// The state that a scene call leaves behind, as far as the call fixes it.
pub open spec fn value_from_action(action: Action) -> Value {
    match action {
        Action::AllLightOn => Value::Light(FULL),
        Action::LightOn(_) => Value::Light(FULL),
        Action::AllLightOff => Value::Light(0),
        Action::LightOff(_) => Value::Light(0),
        Action::AllShadowUp => Value::Shadow(0, FULL),
        Action::ShadowUp(_) => Value::Shadow(0, FULL),
        Action::AllShadowDown => Value::Shadow(FULL, 0),
        Action::ShadowDown(_) => Value::Shadow(FULL, 0),
        _ => Value::Unknown,
    }
}

/// True from half of the range upwards.
pub open spec fn is_high(level: u16) -> bool {
    2 * level >= FULL
}

/// True up to a tenth of the range.
pub open spec fn is_low_tenth(level: u16) -> bool {
    10 * level <= FULL
}

/// True from nine tenths of the range upwards.
pub open spec fn is_high_tenth(level: u16) -> bool {
    10 * level >= 9 * FULL
}

/// Tells whether a level reaches half of the range.
pub fn at_least_half(level: u16) -> (r: bool)
    ensures
        r == is_high(level),
{
    level >= 32768
}

/// Tells whether a level stays within the lowest tenth of the range.
pub fn at_most_tenth(level: u16) -> (r: bool)
    ensures
        r == is_low_tenth(level),
{
    level <= 6553
}

/// Tells whether a level lies in the highest tenth of the range.
pub fn at_least_nine_tenths(level: u16) -> (r: bool)
    ensures
        r == is_high_tenth(level),
{
    level >= 58982
}

impl Value {
    /// The state that follows from a decoded scene call. The group id plays
    /// no part in it.
    pub fn from_action(action: Action, _id: usize) -> (r: Value)
        ensures
            r == value_from_action(action),
    {
        match action {
            Action::AllLightOn => Value::Light(FULL),
            Action::LightOn(_) => Value::Light(FULL),
            Action::AllLightOff => Value::Light(0),
            Action::LightOff(_) => Value::Light(0),
            Action::AllShadowUp => Value::Shadow(0, FULL),
            Action::AllShadowDown => Value::Shadow(FULL, 0),
            Action::ShadowDown(_) => Value::Shadow(FULL, 0),
            Action::ShadowUp(_) => Value::Shadow(0, FULL),
            _ => Value::Unknown,
        }
    }

    /// Whether the value counts as switched on.
    pub open spec fn on(self) -> bool {
        match self {
            Value::Light(level) => is_high(level),
            _ => false,
        }
    }

    /// A light at half brightness or more counts as on; anything else is off.
    pub fn as_bool(&self) -> (r: bool)
        ensures
            r == self.on(),
    {
        match self {
            Value::Light(level) => at_least_half(*level),
            _ => false,
        }
    }
}

impl Default for Value {
    fn default() -> (r: Value)
        ensures
            r == Value::Unknown,
    {
        Value::Unknown
    }
}

/// A light group is off after the scenes 0 to 4 and fully on after the
/// scenes 5 to 8.
pub proof fn light_scenes_resolve(scene: usize)
    requires
        scene <= 8,
    ensures
        scene <= 4 ==> value_from_action(action_from_scene(Type::Light, scene)) == Value::Light(0),
        scene >= 5 ==> value_from_action(action_from_scene(Type::Light, scene)) == Value::Light(
            FULL,
        ),
{
}

/// The closing amount that a raw opening stands for. The wire counts from
/// closed to open, the model from open to closed.
pub open spec fn opening_level(raw: u16) -> u16 {
    (FULL - raw) as u16
}

/// The raw opening that is written for a closing amount.
pub open spec fn opening_raw(level: u16) -> u16 {
    (FULL - level) as u16
}

/// The raw tilt that is written for a tilt level: the wire takes 0 to 255.
pub open spec fn angle_raw(level: u16) -> u8 {
    (level / ANGLE_STEP) as u8
}

/// Turns the raw opening of a shade into its closing amount.
pub fn normalize_opening(raw: u16) -> (r: u16)
    ensures
        r == opening_level(raw),
{
    FULL - raw
}

/// Turns a closing amount into the raw opening that the motor takes.
pub fn denormalize_opening(level: u16) -> (r: u16)
    ensures
        r == opening_raw(level),
{
    FULL - level
}

/// Turns the raw tilt that is read from a shade into a level: both count the
/// same way on the same scale.
pub fn normalize_angle(raw: u16) -> (r: u16)
    ensures
        r == raw,
{
    raw
}

/// Turns a tilt level into the raw tilt that the motor takes.
pub fn denormalize_angle(level: u16) -> (r: u8)
    ensures
        r == angle_raw(level),
{
    (level / ANGLE_STEP) as u8
}

/// Reading an opening and writing it back gives the raw value again, so the
/// two scales never drift apart by a step; the ends of the wire scale are
/// the opposite ends of the model's.
pub proof fn opening_round_trip(raw: u16)
    ensures
        opening_raw(opening_level(raw)) == raw,
        opening_raw(opening_level(raw)) - raw <= 1,
        raw - opening_raw(opening_level(raw)) <= 1,
        opening_level(0) == FULL,
        opening_level(FULL) == 0,
{
}

/// Writing a closing amount and reading it back gives the level again.
pub proof fn closing_round_trip(level: u16)
    ensures
        opening_level(opening_raw(level)) == level,
{
}

/// The raw tilt grows with the level and reaches both ends of its scale.
pub proof fn angle_scale(low: u16, high: u16)
    requires
        low <= high,
    ensures
        angle_raw(low) <= angle_raw(high),
        angle_raw(0) == 0,
        angle_raw(FULL) == 255,
{
}

} // verus!
