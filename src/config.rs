use vstd::prelude::*;

verus! {

/// Physics settings; lengths, speeds and accelerations are in sub-units.
#[derive(Clone, Copy, Debug, PartialEq, Eq, Structural)]
pub struct PhysicsConfig {
    /// Maximum velocity of the pixels, per axis
    pub max_velocity: i64,
    /// Friction of the pixels
    pub friction: i64,
    /// Acceleration of the pixels towards/away from a gravity field, if they
    /// are affected by it
    pub acceleration: i64,
    /// Area of effect of gravity fields
    pub gravity_field_aoe: i64,
}

/// Graphics settings.
#[derive(Clone, Copy, Debug, PartialEq, Eq, Structural)]
pub struct GraphicsConfig {
    /// Size of a single pixel, in sub-units
    pub pixel_size: i64,
    /// Minimal brightness level of the pixels
    pub min_brightness: u8,
    /// Maximal brightness level of the pixels
    pub max_brightness: u8,
}

/// Debug overlay settings.
#[derive(Clone, Copy, Debug, PartialEq, Eq, Structural)]
pub struct DebugConfig {
    /// Whether to automatically show debug info on pause
    pub on_pause: bool,
    /// Whether to show FPS in debug info
    pub fps: bool,
    /// Whether to draw gravity fields
    pub draw_fields: bool,
    /// Whether to show the current number of fields in the arena
    pub n_fields: bool,
}

/// The whole configuration of the sandbox.
#[derive(Clone, Copy, Debug, PartialEq, Eq, Structural)]
pub struct GameConfig {
    /// The number of pixels to play with.
    pub num_pixels: usize,
    /// Physics config
    pub phy: PhysicsConfig,
    /// Graphics config
    pub gfx: GraphicsConfig,
    /// Debug config
    pub dbg: DebugConfig,
}

/// The first rule that a configuration breaks.
#[derive(Clone, Copy, Debug, PartialEq, Eq, Structural)]
pub enum ConfigError {
    NegativeMaxVelocity,
    NegativeFriction,
    NegativeAcceleration,
    FrictionNotBelowAcceleration,
    NonPositiveFieldArea,
    BrightnessRange,
    NonPositivePixelSize,
}

impl GameConfig {
    /// The rules a configuration must meet before the sandbox runs on it.
    pub open spec fn valid(self) -> bool {
        &&& self.phy.max_velocity >= 0
        &&& self.phy.friction >= 0
        &&& self.phy.acceleration >= 0
        &&& self.phy.friction < self.phy.acceleration
        &&& self.phy.gravity_field_aoe > 0
        &&& self.gfx.min_brightness <= self.gfx.max_brightness
        &&& self.gfx.pixel_size > 0
    }

    /// The outcome of checking the rules in order.
    pub open spec fn check(self) -> Result<(), ConfigError> {
        if self.phy.max_velocity < 0 {
            Err(ConfigError::NegativeMaxVelocity)
        } else if self.phy.friction < 0 {
            Err(ConfigError::NegativeFriction)
        } else if self.phy.acceleration < 0 {
            Err(ConfigError::NegativeAcceleration)
        } else if self.phy.friction >= self.phy.acceleration {
            Err(ConfigError::FrictionNotBelowAcceleration)
        } else if self.phy.gravity_field_aoe <= 0 {
            Err(ConfigError::NonPositiveFieldArea)
        } else if self.gfx.min_brightness > self.gfx.max_brightness {
            Err(ConfigError::BrightnessRange)
        } else if self.gfx.pixel_size <= 0 {
            Err(ConfigError::NonPositivePixelSize)
        } else {
            Ok(())
        }
    }

    /// Checks the rules in order and returns the first one broken.
    pub fn validate(&self) -> (r: Result<(), ConfigError>)
        ensures
            r == self.check(),
            r is Ok <==> self.valid(),
    {
        if self.phy.max_velocity < 0 {
            Err(ConfigError::NegativeMaxVelocity)
        } else if self.phy.friction < 0 {
            Err(ConfigError::NegativeFriction)
        } else if self.phy.acceleration < 0 {
            Err(ConfigError::NegativeAcceleration)
        } else if self.phy.friction >= self.phy.acceleration {
            Err(ConfigError::FrictionNotBelowAcceleration)
        } else if self.phy.gravity_field_aoe <= 0 {
            Err(ConfigError::NonPositiveFieldArea)
        } else if self.gfx.min_brightness > self.gfx.max_brightness {
            Err(ConfigError::BrightnessRange)
        } else if self.gfx.pixel_size <= 0 {
            Err(ConfigError::NonPositivePixelSize)
        } else {
            Ok(())
        }
    }
}

} // verus!
