//! Restarting running docker containers with a new image, on demand.
//!
//! The verified core: parsing image references and registry names, reading
//! registry credentials out of a docker configuration, choosing the
//! containers that an image update touches, authorising requests and
//! turning errors into HTTP answers.

pub mod api_key;
pub mod auth;
pub mod config;
pub mod credentials;
pub mod docker;
pub mod error;
pub mod parse;
pub mod random;
pub mod routes;
pub mod strings;
