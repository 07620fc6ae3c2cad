//! Playback configuration.

use vstd::prelude::*;

verus! {

/// Settings of the stereo renderer: two virtual cardioid microphones pointed
/// 45 degrees to the left and to the right of the front.
#[derive(Clone, Copy, Debug, PartialEq, Eq, Structural)]
pub struct StereoConfig {}

impl Default for StereoConfig {
    fn default() -> (r: Self)
        ensures
            r == (StereoConfig {}),
    {
        StereoConfig {}
    }
}

/// Settings of the headphone renderer: the impulse-response data set, as text.
#[derive(Debug)]
pub struct HrtfConfig {
    /// The bytes of the impulse-response data set.
    pub hrir_data: Vec<u8>,
}

impl HrtfConfig {
    /// Render with the given impulse-response data set.
    pub fn from_data(hrir_data: Vec<u8>) -> (r: Self)
        ensures
            r.hrir_data@ == hrir_data@,
    {
        HrtfConfig { hrir_data }
    }
}

impl Default for HrtfConfig {
    /// No data set; it has to be supplied before rendering can start.
    fn default() -> (r: Self)
        ensures
            r.hrir_data@.len() == 0,
    {
        HrtfConfig { hrir_data: Vec::new() }
    }
}

/// Configure playback parameters.
#[derive(Debug)]
pub enum PlaybackConfiguration {
    /// Stereo playback.
    Stereo(StereoConfig),
    /// Headphone playback using head related transfer functions.
    Hrtf(HrtfConfig),
}

impl Default for PlaybackConfiguration {
    /// Stereo playback with default settings.
    fn default() -> (r: Self)
        ensures
            r is Stereo,
    {
        PlaybackConfiguration::Stereo(StereoConfig {})
    }
}

impl From<StereoConfig> for PlaybackConfiguration {
    fn from(cfg: StereoConfig) -> (r: Self) {
        PlaybackConfiguration::Stereo(cfg)
    }
}

impl vstd::std_specs::convert::FromSpecImpl<StereoConfig> for PlaybackConfiguration {
    open spec fn obeys_from_spec() -> bool {
        true
    }

    open spec fn from_spec(cfg: StereoConfig) -> Self {
        PlaybackConfiguration::Stereo(cfg)
    }
}

impl From<HrtfConfig> for PlaybackConfiguration {
    fn from(cfg: HrtfConfig) -> (r: Self) {
        PlaybackConfiguration::Hrtf(cfg)
    }
}

impl vstd::std_specs::convert::FromSpecImpl<HrtfConfig> for PlaybackConfiguration {
    open spec fn obeys_from_spec() -> bool {
        true
    }

    open spec fn from_spec(cfg: HrtfConfig) -> Self {
        PlaybackConfiguration::Hrtf(cfg)
    }
}

} // verus!
