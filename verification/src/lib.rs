//! Now-playing: the verified core of a small "what am I listening to" service.
pub mod agent;
pub mod api;
pub mod colors;
pub mod encoding;
pub mod model;
pub mod music;
pub mod svg;
pub mod text;
