pub mod accent;
pub mod agents;
pub mod cells;
pub mod client;
pub mod envelope;
pub mod json;
pub mod log;
pub mod mentions;
pub mod mux;
pub mod popup;
pub mod strutil;
pub mod threads;
