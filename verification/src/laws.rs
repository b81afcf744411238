//! What holds of the library as a whole.
//!
//! Each law says what an operation does to what it is given, in the plainest terms
//! at hand: characters, indices and fields. None of them leans on the way in which
//! the operation is computed.

pub mod answers;
pub mod calls;
pub mod children;
pub mod client;
pub mod commands;
pub mod flow;
pub mod functions;
pub mod links;
pub mod options;
pub mod panes;
pub mod results;
pub mod server;
pub mod targets;
pub mod terminal;
pub mod texts;
pub mod windows;
pub mod work;
