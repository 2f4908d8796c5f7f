//! Process-execution core of a BEAM-style runtime: execution contexts,
//! processes, the process table, the run queue and the spawn/send protocols.

pub mod value;
pub mod exception;
pub mod module;
pub mod mailbox;
pub mod pool;
pub mod context;
pub mod process;
pub mod process_table;
pub mod vm;
