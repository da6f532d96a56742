//! What can be configured of the engine.

use vstd::prelude::*;

verus! {

/// The default cooldown window, in seconds.
pub const DEFAULT_COOLDOWN_SECS: u32 = 60;

/// The default half-width of the price band, in basis points of the mark
/// price: five percent.
pub const DEFAULT_BAND_BPS: u32 = 500;

/// The default period of the cooldown sweep, in seconds.
pub const DEFAULT_SWEEP_INTERVAL_SECS: u32 = 5;

/// The default period of the cron poll, in seconds.
pub const DEFAULT_CRON_POLL_INTERVAL_SECS: u32 = 60;

/// The settings of an engine.
#[derive(Clone, Copy, Debug, PartialEq, Eq, Structural)]
pub struct EngineConfig {
    /// How long an alert stays suppressed after it fired, in seconds.
    pub cooldown_secs: u32,
    /// Half-width of the price band, in basis points of the mark price.
    pub band_bps: u32,
    /// Period of the cooldown sweep, in seconds.
    pub sweep_interval_secs: u32,
    /// Period of the cron poll, in seconds.
    pub cron_poll_interval_secs: u32,
}

impl Default for EngineConfig {
    fn default() -> (config: Self)
        ensures
            config == (EngineConfig {
                cooldown_secs: DEFAULT_COOLDOWN_SECS,
                band_bps: DEFAULT_BAND_BPS,
                sweep_interval_secs: DEFAULT_SWEEP_INTERVAL_SECS,
                cron_poll_interval_secs: DEFAULT_CRON_POLL_INTERVAL_SECS,
            }),
    {
        EngineConfig {
            cooldown_secs: DEFAULT_COOLDOWN_SECS,
            band_bps: DEFAULT_BAND_BPS,
            sweep_interval_secs: DEFAULT_SWEEP_INTERVAL_SECS,
            cron_poll_interval_secs: DEFAULT_CRON_POLL_INTERVAL_SECS,
        }
    }
}

} // verus!
