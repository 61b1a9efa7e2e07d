//! Multi-source claim resolution: aggregation of numeric readings, threshold
//! evaluation, and the fixed-layout attestation document that binds a verdict
//! to the enclave that computed it.
//!
//! Readings, thresholds and coordinates are fixed-point integers in millionths
//! of their unit (`types::SCALE`), so every comparison and average is exact.
//!
//! - `types`: the data model.
//! - `aggregate`: median, mean and majority aggregation, and the condition
//!   evaluator.
//! - `weather`: one resolution from the responses of the declared sources.
//! - `extract`: reading a number at a path of a parsed JSON response.
//! - `number`: decimal text to millionths.
//! - `url`: source URLs from templates.
//! - `attestation`: the signed payload, its digest, and the document layout.

pub mod types;
pub mod aggregate;
pub mod attestation;
pub mod weather;
pub mod number;
pub mod extract;
pub mod url;
