//! Air-quality metrics pipeline: decoding of loosely typed sensor telemetry,
//! fixed-point decimal coercion, EPA piecewise-linear AQI estimation, and the
//! projection of a sensor snapshot onto labeled gauge writes.

pub mod aqi;
pub mod decimal;
pub mod metrics;
pub mod scrape;
pub mod sensor;

pub use decimal::Reading;
