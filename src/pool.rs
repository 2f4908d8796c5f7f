use vstd::prelude::*;

verus! {

#[derive(PartialEq, Eq, Structural, Clone, Copy, Debug)]
pub enum Priority {
    Normal,
    High,
}

/// A unit of schedulable work: a runnable process, by its identifier.
#[derive(PartialEq, Eq, Structural, Clone, Copy, Debug)]
pub struct Job {
    pub pid: usize,
    pub priority: Priority,
}

impl Job {
    pub fn normal(pid: usize) -> (r: Job)
        ensures
            r == (Job { pid, priority: Priority::Normal }),
    {
        Job { pid, priority: Priority::Normal }
    }
}

/// The run queue that hands runnable processes to worker threads.
pub struct Pool {
    jobs: Vec<Job>,
}

impl Pool {
    /// The jobs submitted so far, in order of submission.
    pub closed spec fn jobs_spec(&self) -> Seq<Job> {
        self.jobs@
    }

    pub fn new() -> (r: Pool)
        ensures
            r.jobs_spec().len() == 0,
    {
        Pool { jobs: Vec::new() }
    }

    pub fn schedule(&mut self, job: Job)
        ensures
            final(self).jobs_spec() == old(self).jobs_spec().push(job),
    {
        self.jobs.push(job);
    }

    pub fn jobs(&self) -> (r: &Vec<Job>)
        ensures
            r@ == self.jobs_spec(),
    {
        &self.jobs
    }
}

} // verus!
