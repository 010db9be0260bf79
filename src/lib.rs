//! A small terminal line editor: a verified text buffer with a cursor, the
//! key-dispatch state machine of an editing session, and a text transform.

pub mod text;
pub mod buffer;
pub mod editor;
pub mod llm;
pub mod session;
