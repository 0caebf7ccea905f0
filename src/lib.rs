//! Client logic for a smart-lighting bridge and the light gauges exported
//! from what it reports.
pub mod json;
pub mod light;
pub mod bridge;
pub mod metrics;

pub use json::{JsonNumber, JsonValue};
pub use light::{Light, LightCapabilities, LightConfig, LightState};
pub use bridge::{Bridge, RegisterError, DEVICE_TYPE, status_is_success};
pub use metrics::{Gauge, MetricSample, samples_of, poll_samples, POLL_INTERVAL_SECS, UNIQUE_ID_LABEL, NAME_LABEL};
