//! The decision logic of a browser engine's cooperating tasks.

pub mod bindings;
pub mod dom;
pub mod engine;
pub mod engine_calls;
pub mod geometry;
pub mod ids;
pub mod layout;
pub mod navigation;
pub mod page;
pub mod render_calls;
pub mod render_task;
pub mod script_calls;
pub mod script_history;
pub mod script_laws;
pub mod script_task;
pub mod tiling;
pub mod url;
