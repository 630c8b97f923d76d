//! The logic of a console that lives inside another process: it compiles
//! wildcard byte signatures and finds them in the memory of loaded modules,
//! runs the read-evaluate loop of a Lua console line by line, and decides what
//! attaching to and detaching from the host process have to do.
//!
//! Nothing here reads a terminal, prints, or touches the host: callers hand in
//! what was read and carry out what is decided.

pub mod pattern;
pub mod region;
pub mod scanner;
pub mod bridge;
pub mod interp;
pub mod history;
pub mod session;
pub mod lifecycle;
