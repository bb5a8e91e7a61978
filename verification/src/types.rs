use vstd::prelude::*;

verus! {

/// An RGB color as written to the LED class device.
#[derive(Debug, Clone, Copy, PartialEq, Eq)]
pub struct Color {
    pub r: u8,
    pub g: u8,
    pub b: u8,
}

/// One point of a multi-color animation: the color to reach and how to get there
/// from the point before it.
#[derive(Debug, Clone)]
pub struct ColorPoint {
    pub color: Color,
    /// `"None"` snaps to this color and holds it for the transition time; any other
    /// value (or none) fades linearly to it over the transition time. A transition of
    /// 0 ms snaps to this color and holds it for good.
    pub transition: Option<String>,
    /// Duration of the transition in milliseconds (1000 when absent).
    pub transition_time: Option<u64>,
}

/// A keyboard animation definition.
#[derive(Debug, Clone)]
pub enum ColorProfile {
    Single(Color),
    Multiple(Vec<ColorPoint>),
    /// The backlight is off (written `"None"` in profile files).
    Off,
}

/// A profile selector: which keyboard animation each LED device uses.
#[derive(Debug, Clone)]
pub struct ProfileSelector {
    pub leds: Vec<LedProfile>,
}

/// The LED entry of a profile selector.
#[derive(Debug, Clone)]
pub struct LedProfile {
    pub device_name: String,
    pub function: String,
    pub profile: String,
    pub mode: String,
}

/// A precomputed animation frame: a color held for `duration_ms` milliseconds, or
/// for good when `duration_ms` is 0.
#[derive(Debug, Clone, Copy, PartialEq, Eq)]
pub struct Frame {
    pub color: Color,
    pub duration_ms: u64,
}

} // verus!
