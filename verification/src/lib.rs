//! Mouse-gesture recognition: the decisions behind a right-button gesture
//! daemon, from the raw trail of pointer positions to the actions a
//! configured gesture fires.

pub mod actions;
pub mod app_state;
pub mod capture;
pub mod config;
pub mod direction;
pub mod gesture;
pub mod logger;
pub mod processes;
pub mod text;
pub mod tray;
