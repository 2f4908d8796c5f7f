use vstd::prelude::*;

use crate::process::{Process, PID};

verus! {

/// What the table holds under one identifier.
pub enum Slot {
    /// The identifier can be handed out.
    Free,
    /// Handed out by `reserve`, no process registered yet.
    Reserved,
    /// Registered to a live process.
    Live(Process),
}

/// The registry of processes by identifier. It hands out identifiers up to a
/// fixed capacity and reuses those that are free.
pub struct ProcessTable {
    slots: Vec<Slot>,
    capacity: usize,
}

impl ProcessTable {
    pub closed spec fn capacity_spec(&self) -> nat {
        self.capacity as nat
    }

    /// What the table holds under `pid`; identifiers it has never handed out
    /// are free.
    pub closed spec fn slot(&self, pid: int) -> Slot {
        if 0 <= pid < self.slots@.len() {
            self.slots@[pid]
        } else {
            Slot::Free
        }
    }

    /// Whether `reserve` may hand out `pid`.
    pub open spec fn is_available(&self, pid: int) -> bool {
        0 <= pid < self.capacity_spec() && self.slot(pid) is Free
    }

    /// The identifier that `reserve` hands out next: the least available one.
    pub open spec fn next_pid(&self) -> Option<PID> {
        if exists|p: int| self.is_available(p) {
            let p = choose|p: int| self.is_available(p) && forall|q: int| 0 <= q < p ==> !self.is_available(q);
            Some(p as PID)
        } else {
            None
        }
    }

    pub open spec fn is_live(&self, pid: int) -> bool {
        self.slot(pid) is Live
    }

    /// The process registered under `pid`, where one is.
    pub open spec fn process(&self, pid: int) -> Process
        recommends
            self.is_live(pid),
    {
        self.slot(pid)->Live_0
    }

    pub closed spec fn wf(&self) -> bool {
        &&& self.slots@.len() <= self.capacity
        &&& forall|p: int|
            0 <= p < self.slots@.len() && (#[trigger] self.slots@[p]) is Live ==> {
                &&& self.slots@[p]->Live_0.pid == p
                &&& self.slots@[p]->Live_0.wf()
            }
    }

    /// Whether `pid` holds the same in both tables.
    pub open spec fn same_slot(&self, other: &ProcessTable, pid: int) -> bool {
        self.slot(pid) == other.slot(pid)
    }

    pub fn new(capacity: usize) -> (r: ProcessTable)
        ensures
            r.wf(),
            r.capacity_spec() == capacity,
            forall|p: int| #[trigger] r.slot(p) is Free,
    {
        ProcessTable { slots: Vec::new(), capacity }
    }

    pub proof fn lemma_live_process(&self, pid: int)
        requires
            self.wf(),
            self.is_live(pid),
        ensures
            self.process(pid).pid == pid,
            self.process(pid).wf(),
    {
    }

    /// Hands out the least available identifier, now reserved, or nothing
    /// when every identifier below the capacity is in use.
    pub fn reserve(&mut self) -> (r: Option<PID>)
        requires
            old(self).wf(),
        ensures
            final(self).wf(),
            r == old(self).next_pid(),
            final(self).capacity_spec() == old(self).capacity_spec(),
            match r {
                Some(p) => {
                    &&& final(self).slot(p as int) is Reserved
                    &&& forall|q: int| q != p ==> #[trigger] final(self).same_slot(old(self), q)
                },
                None => *final(self) == *old(self),
            },
    {
        let mut i: usize = 0;
        while i < self.slots.len()
            invariant
                self.wf(),
                *self == *old(self),
                i <= self.slots@.len(),
                forall|q: int| 0 <= q < i ==> !(#[trigger] self.slot(q) is Free),
            decreases self.slots@.len() - i,
        {
            let free = match &self.slots[i] {
                Slot::Free => true,
                _ => false,
            };
            if free {
                self.slots[i] = Slot::Reserved;
                proof {
                    old(self).lemma_least_available(i as int);
                }
                return Some(i);
            }
            i = i + 1;
        }
        if self.slots.len() < self.capacity {
            let p = self.slots.len();
            self.slots.push(Slot::Reserved);
            proof {
                old(self).lemma_least_available(p as int);
                assert forall|q: int| q != p implies #[trigger] self.same_slot(old(self), q) by {
                    if 0 <= q < p {
                        assert(self.slots@[q] == old(self).slots@[q]);
                    }
                }
            }
            Some(p)
        } else {
            proof {
                assert forall|p: int| !old(self).is_available(p) by {
                    if 0 <= p < self.capacity {
                        assert(!(self.slot(p) is Free));
                    }
                }
            }
            None
        }
    }

    /// The identifier that `reserve` hands out next is available.
    pub proof fn lemma_next_pid_available(&self)
        ensures
            self.next_pid() is Some ==> self.is_available(self.next_pid()->Some_0 as int),
    {
        if exists|p: int| self.is_available(p) {
            let c = choose|c: int| self.is_available(c) && forall|q: int| 0 <= q < c ==> !self.is_available(q);
            let p = choose|p: int| self.is_available(p);
            self.lemma_least_from(p);
        }
    }

    proof fn lemma_least_from(&self, p: int)
        requires
            self.is_available(p),
        ensures
            exists|c: int| self.is_available(c) && forall|q: int| 0 <= q < c ==> !self.is_available(q),
        decreases p,
    {
        if exists|q: int| 0 <= q < p && self.is_available(q) {
            let q = choose|q: int| 0 <= q < p && self.is_available(q);
            self.lemma_least_from(q);
        }
    }

    proof fn lemma_least_available(&self, p: int)
        requires
            self.is_available(p),
            forall|q: int| 0 <= q < p ==> !(#[trigger] self.slot(q) is Free),
        ensures
            self.next_pid() == Some(p as PID),
    {
        let c = choose|c: int| self.is_available(c) && forall|q: int| 0 <= q < c ==> !self.is_available(q);
        assert(self.is_available(c) && forall|q: int| 0 <= q < c ==> !self.is_available(q));
        if c < p {
            assert(!(self.slot(c) is Free));
        }
        if p < c {
            assert(!self.is_available(p));
        }
    }

    /// Registers `process` under the identifier that was reserved for it.
    pub fn map(&mut self, pid: PID, process: Process)
        requires
            old(self).wf(),
            old(self).slot(pid as int) is Reserved,
            process.pid == pid,
            process.wf(),
        ensures
            final(self).wf(),
            final(self).capacity_spec() == old(self).capacity_spec(),
            final(self).slot(pid as int) == Slot::Live(process),
            forall|q: int| q != pid ==> #[trigger] final(self).same_slot(old(self), q),
    {
        self.slots[pid] = Slot::Live(process);
    }

    /// The process registered under `pid`, if one is.
    pub fn get(&self, pid: PID) -> (r: Option<&Process>)
        ensures
            self.is_live(pid as int) ==> r == Some(&self.process(pid as int)),
            !self.is_live(pid as int) ==> r is None,
    {
        if pid < self.slots.len() {
            match &self.slots[pid] {
                Slot::Live(p) => Some(p),
                _ => None,
            }
        } else {
            None
        }
    }

    /// Exclusive access to the process registered under `pid`, if one is.
    pub fn get_mut(&mut self, pid: PID) -> (r: Option<&mut Process>)
        requires
            old(self).wf(),
        ensures
            old(self).is_live(pid as int) ==> {
                &&& r is Some
                &&& *r->Some_0 == old(self).process(pid as int)
                &&& final(self).slot(pid as int) == Slot::Live(*final(r->Some_0))
                &&& (final(r->Some_0).pid == pid && final(r->Some_0).wf()) ==> final(self).wf()
            },
            !old(self).is_live(pid as int) ==> r is None && *final(self) == *old(self),
            final(self).capacity_spec() == old(self).capacity_spec(),
            forall|q: int| q != pid ==> #[trigger] final(self).same_slot(old(self), q),
    {
        let live = match self.get(pid) {
            Some(_) => true,
            None => false,
        };
        if !live {
            return None;
        }
        match &mut self.slots[pid] {
            Slot::Live(p) => Some(p),
            _ => None,
        }
    }
}

} // verus!
