//! Verified core of a desktop assistant for Arch Linux: command routing,
//! dialog state, bounded chat history, input recall, background-task
//! bookkeeping and the bracketed-marker substitution protocol.

pub mod assistant;
pub mod chat;
pub mod clock;
pub mod config;
pub mod desktop;
pub mod dialog;
pub mod guides;
pub mod installer;
pub mod markers;
pub mod model;
pub mod recall;
pub mod router;
pub mod tasks;
pub mod text;
pub mod tools;
