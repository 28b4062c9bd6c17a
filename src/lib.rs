//! A syscall tracer's core: a catalog of syscall signatures and the decoder
//! that renders one trace stop with it, the parser of a process status
//! record, and the state machine that drives a trace session.

pub mod text;
pub mod procinfo;
pub mod syscalls;
pub mod trace;
pub mod fd;
