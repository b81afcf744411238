//! A terminal multiplexer: the rules by which its client, its server and its
//! tools decide.
//!
//! Nothing here reads or writes. Where the outside world has a say, a function
//! takes what it said and answers what to do next.

// What everything else is made of.
pub mod names;
pub mod table;
pub mod text;
pub mod paths;
pub mod size;

// What clients and the server say to each other.
pub mod protocol;
pub mod response;
pub mod error;

// Sessions, windows and panes, and what becomes of them.
pub mod session;
pub mod state;
pub mod window_links;
pub mod window_movement;
pub mod cross_session;
pub mod targets;
pub mod options;
pub mod snapshot;
pub mod passthrough;

// Commands that run other commands.
pub mod queue;
pub mod shell;
pub mod source;

// Clients.
pub mod cli;
pub mod client;
pub mod input;
pub mod streams;

// Processes, shells and daemons.
pub mod listener;
pub mod process;
pub mod shell_resolver;
pub mod shell_resolver_windows;
pub mod spawn;
pub mod startup;
pub mod windows_runtime;

// Work on the repository.
pub mod xtask;

// What holds of all of this.
pub mod laws;
