use vstd::prelude::*;

use crate::module::Module;
use crate::pool::Pool;
use crate::process_table::ProcessTable;

verus! {

/// The runtime state that processes share: the process table, the run
/// queue, and the registry of loaded modules, which only grows.
pub struct State {
    pub process_table: ProcessTable,
    pub process_pool: Pool,
    pub modules: Vec<Module>,
}

impl State {
    pub open spec fn wf(&self) -> bool {
        self.process_table.wf()
    }

    /// A runtime with no process, an empty run queue and the given modules.
    pub fn new(max_processes: usize, modules: Vec<Module>) -> (r: State)
        ensures
            r.wf(),
            r.process_table.capacity_spec() == max_processes,
            forall|p: int| #[trigger] r.process_table.slot(p) is Free,
            r.process_pool.jobs_spec().len() == 0,
            r.modules@ == modules@,
    {
        State { process_table: ProcessTable::new(max_processes), process_pool: Pool::new(), modules }
    }
}

} // verus!
