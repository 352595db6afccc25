//! A single-line text-editing engine for terminal input fields: a text buffer
//! with a cursor, driven by edit requests, together with the display-width
//! arithmetic needed to keep the cursor visible in a bounded viewport.

pub mod backend;
pub mod input;
pub mod laws;
pub mod render;
pub mod text;
pub mod width;
pub mod word;

pub use input::{Input, InputRequest, InputResponse, StateChanged};
