pub mod geometry;
pub mod rules;
pub mod engine;
pub mod layout;
pub mod resolver;
pub mod interop;
pub mod ui;
pub mod events;
pub mod session;
