//! Adaptive tray-animation and badge engine: load-driven frame rate,
//! wall-clock frame selection, throttled load sampling, and the
//! days-remaining badge of a pinned countdown.

pub mod scheduler;
pub mod metrics;
pub mod driver;
pub mod frames;
pub mod badge;
pub mod records;
