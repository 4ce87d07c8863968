//! Effect descriptors: the test "flip" effect and the configuration that
//! creates it.
use vstd::prelude::*;

verus! {

/// The wire form of a flip effect.
pub struct FlipEffectDto {
    pub id: u32,
    pub name: String,
    pub is_active: bool,
    /// UI colour for the pedal chassis (hex string, e.g. `"#e74c3c"`).
    pub color: String,
}

/// A test effect that inverts the signal; it starts bypassed.
pub struct FlipEffect {
    id: u32,
    name: String,
    is_active: bool,
    color: String,
}

impl View for FlipEffect {
    /// `(id, name, is_active, color)`.
    type V = (u32, Seq<char>, bool, Seq<char>);

    closed spec fn view(&self) -> (u32, Seq<char>, bool, Seq<char>) {
        (self.id, self.name@, self.is_active, self.color@)
    }
}

impl FlipEffect {
    /// A bypassed flip effect.
    pub fn new(id: u32, name: String, color: String) -> (r: Self)
        ensures
            r@ == (id, name@, false, color@),
    {
        FlipEffect { id, name, is_active: false, color }
    }

    pub fn id(&self) -> (r: u32)
        ensures
            r == self@.0,
    {
        self.id
    }

    pub fn name(&self) -> (r: &str)
        ensures
            r@ == self@.1,
    {
        self.name.as_str()
    }

    pub fn get_color(&self) -> (r: String)
        ensures
            r@ == self@.3,
    {
        self.color.clone()
    }

    /// Whether the effect processes audio (otherwise it is bypassed).
    pub fn is_active(&self) -> (r: bool)
        ensures
            r == self@.2,
    {
        self.is_active
    }

    /// Switches the effect on or off.
    pub fn set_active(&mut self, active: bool)
        ensures
            final(self)@ == (old(self)@.0, old(self)@.1, active, old(self)@.3),
    {
        self.is_active = active;
    }

    /// The wire form of the effect's current state.
    pub fn to_dto(&self) -> (r: FlipEffectDto)
        ensures
            (r.id, r.name@, r.is_active, r.color@) == self@,
    {
        FlipEffectDto {
            id: self.id,
            name: self.name.clone(),
            is_active: self.is_active,
            color: self.color.clone(),
        }
    }
}

/// The user's settings for a new effect.
pub struct EffectConfig {
    pub name: String,
    pub color: String,
}

/// The kind of effect to add, with its settings.
pub enum EffectType {
    Flip(EffectConfig),
}

impl EffectType {
    /// Creates the effect with id `next_id`, bypassed.
    pub fn create(&self, next_id: u32) -> (r: FlipEffect)
        ensures
            match self {
                EffectType::Flip(config) => r@ == (next_id, config.name@, false, config.color@),
            },
    {
        match self {
            EffectType::Flip(config) => FlipEffect::new(next_id, config.name.clone(), config.color.clone()),
        }
    }
}

/// Shortest echo delay of the delay effect, in milliseconds.
pub const MIN_DELAY_TIME_MS: u32 = 20;

/// Longest echo delay of the delay effect, in milliseconds.
pub const MAX_DELAY_TIME_MS: u32 = 300;

/// A requested echo delay held to the delay effect's 20..=300 ms range.
pub fn clamp_delay_time(delay_time_ms: u32) -> (r: u32)
    ensures
        r == (if delay_time_ms < MIN_DELAY_TIME_MS {
            MIN_DELAY_TIME_MS
        } else if delay_time_ms > MAX_DELAY_TIME_MS {
            MAX_DELAY_TIME_MS
        } else {
            delay_time_ms
        }),
{
    if delay_time_ms < MIN_DELAY_TIME_MS {
        MIN_DELAY_TIME_MS
    } else if delay_time_ms > MAX_DELAY_TIME_MS {
        MAX_DELAY_TIME_MS
    } else {
        delay_time_ms
    }
}

} // verus!
