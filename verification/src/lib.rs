//! A verified core for a small contract-serving web service.
//!
//! The service holds a registry of named scripts ("contracts") discovered on
//! disk at startup, and for each request looks one up, bounds the request
//! body, hands script, keys and input to an external execution engine, and
//! shapes the engine's outcome into a JSON response.  This library holds the
//! decisions of that pipeline — discovery validation, lookup, input bounding,
//! response shaping — as verified functions; the surrounding process does the
//! reading, listening and engine invocation.

pub mod dispatch;
pub mod input;
pub mod registry;
