use vstd::prelude::*;

use crate::context::{ExecutionContext, NUM_REGISTERS};
use crate::exception::{Exception, Reason};
use crate::mailbox::Mailbox;
use crate::pool::{Job, Priority};
use crate::process_table::ProcessTable;
use crate::value::{argument_values, build_list, lemma_argument_values_of_list, Value};
use crate::vm::State;

verus! {

/// A process identifier: a small integer, unique among live processes.
/// Identifier 0 belongs to the main process.
pub type PID = usize;

/// Why a process could not be created.
#[derive(PartialEq, Eq, Structural, Clone, Copy, Debug)]
pub enum ProcessError {
    /// Every identifier of the process table is in use.
    NoPidAvailable,
    /// The argument list needs more registers than a context has.
    TooManyArguments,
}

/// The state that only the thread currently running a process may change.
pub struct LocalData {
    pub context: Box<ExecutionContext>,
    pub mailbox: Mailbox,
    /// The worker thread this process is pinned to, if any.
    pub thread_id: Option<u8>,
    /// The process dictionary: key/value pairs, each key at most once.
    pub dictionary: Vec<(Value, Value)>,
}

/// Whether no key stands twice in a process dictionary.
pub open spec fn keys_unique(d: Seq<(Value, Value)>) -> bool {
    forall|i: int, j: int| 0 <= i < j < d.len() ==> #[trigger] d[i].0 != #[trigger] d[j].0
}

impl LocalData {
    pub open spec fn context_spec(&self) -> ExecutionContext {
        *self.context
    }

    pub open spec fn wf(&self) -> bool {
        keys_unique(self.dictionary@)
    }

    pub fn context(&self) -> (r: &ExecutionContext)
        ensures
            *r == self.context_spec(),
    {
        &self.context
    }
}

/// The schedulable unit: an identifier, the locally-mutable state, and the
/// flag that says it has parked itself until a message arrives.
///
/// The local state is changed only through `&mut Process`, which the process
/// table hands to one holder at a time.
pub struct Process {
    pub local_data: LocalData,
    pub pid: PID,
    pub waiting_for_message: bool,
}

impl Process {
    pub open spec fn context_spec(&self) -> ExecutionContext {
        self.local_data.context_spec()
    }

    pub open spec fn wf(&self) -> bool {
        self.local_data.wf()
    }

    /// The process as `with_rc(pid, ..)` builds it, whatever its context.
    pub open spec fn is_new(&self, pid: PID) -> bool {
        &&& self.pid == pid
        &&& !self.waiting_for_message
        &&& self.local_data.mailbox.is_empty_spec()
        &&& self.local_data.thread_id is None
        &&& self.local_data.dictionary@.len() == 0
    }

    /// The process as `from_block(pid, module)` builds it.
    pub open spec fn is_fresh(&self, pid: PID, module: usize) -> bool {
        self.is_new(pid) && self.context_spec().is_fresh(module)
    }

    /// Wraps a context into a new process with an empty mailbox, no thread
    /// affinity and an empty dictionary.
    pub fn with_rc(pid: PID, context: ExecutionContext) -> (r: Process)
        ensures
            r.is_new(pid),
            r.context_spec() == context,
            r.wf(),
    {
        let local_data = LocalData {
            context: Box::new(context),
            mailbox: Mailbox::new(),
            thread_id: None,
            dictionary: Vec::new(),
        };
        Process { pid, local_data, waiting_for_message: false }
    }

    /// A new process whose fresh context starts at offset 0 of `module`.
    pub fn from_block(pid: PID, module: usize) -> (r: Process)
        ensures
            r.is_fresh(pid, module),
            r.wf(),
    {
        let context = ExecutionContext::new(module);
        Process::with_rc(pid, context)
    }

    pub fn context(&self) -> (r: &ExecutionContext)
        ensures
            *r == self.context_spec(),
    {
        self.local_data.context()
    }

    pub fn context_mut(&mut self) -> (r: &mut ExecutionContext)
        ensures
            *r == old(self).context_spec(),
            final(self).context_spec() == *final(r),
            final(self).local_data.mailbox == old(self).local_data.mailbox,
            final(self).local_data.thread_id == old(self).local_data.thread_id,
            final(self).local_data.dictionary == old(self).local_data.dictionary,
            final(self).pid == old(self).pid,
            final(self).waiting_for_message == old(self).waiting_for_message,
    {
        &mut *self.local_data.context
    }

    pub fn local_data_mut(&mut self) -> (r: &mut LocalData)
        ensures
            *r == old(self).local_data,
            final(self).local_data == *final(r),
            final(self).pid == old(self).pid,
            final(self).waiting_for_message == old(self).waiting_for_message,
    {
        &mut self.local_data
    }

    pub fn local_data(&self) -> (r: &LocalData)
        ensures
            *r == self.local_data,
    {
        &self.local_data
    }

    pub fn is_main(&self) -> (r: bool)
        ensures
            r == (self.pid == 0),
    {
        self.pid == 0
    }

    /// Whether a delivery from `sender` goes to the self-sent lane.
    pub open spec fn is_self_send(&self, sender: PID) -> bool {
        sender == self.pid
    }

    /// Delivers `message` from the process `sender` into this process's
    /// mailbox: the internal lane for a message to itself, else the external
    /// lane.
    pub fn send_message(&mut self, sender: PID, message: &Value)
        ensures
            final(self).pid == old(self).pid,
            final(self).waiting_for_message == old(self).waiting_for_message,
            final(self).context_spec() == old(self).context_spec(),
            final(self).local_data.thread_id == old(self).local_data.thread_id,
            final(self).local_data.dictionary == old(self).local_data.dictionary,
            old(self).is_self_send(sender) ==> {
                &&& final(self).local_data.mailbox.internal_lane()
                    == old(self).local_data.mailbox.internal_lane().push(*message)
                &&& final(self).local_data.mailbox.external_lane()
                    == old(self).local_data.mailbox.external_lane()
            },
            !old(self).is_self_send(sender) ==> {
                &&& final(self).local_data.mailbox.internal_lane()
                    == old(self).local_data.mailbox.internal_lane()
                &&& final(self).local_data.mailbox.external_lane()
                    == old(self).local_data.mailbox.external_lane().push(*message)
            },
    {
        if sender == self.pid {
            self.local_data.mailbox.send_internal(message);
        } else {
            self.local_data.mailbox.send_external(message);
        }
    }

    pub fn set_waiting_for_message(&mut self, value: bool)
        ensures
            *final(self) == (Process { waiting_for_message: value, ..*old(self) }),
    {
        self.waiting_for_message = value;
    }

    pub fn is_waiting_for_message(&self) -> (r: bool)
        ensures
            r == self.waiting_for_message,
    {
        self.waiting_for_message
    }
}

/// The table after `allocate` registered a fresh process under `pid`:
/// nothing else changed.
pub open spec fn registered_fresh(
    before: ProcessTable,
    after: ProcessTable,
    pid: PID,
    module: usize,
) -> bool {
    &&& after.is_live(pid as int)
    &&& after.process(pid as int).is_fresh(pid, module)
    &&& after.capacity_spec() == before.capacity_spec()
    &&& forall|q: int| q != pid ==> #[trigger] after.same_slot(&before, q)
}

/// Reserves an identifier, builds a fresh process at offset 0 of `module`,
/// registers it, and returns its identifier.
pub fn allocate(state: &mut State, module: usize) -> (r: Result<PID, ProcessError>)
    requires
        old(state).wf(),
    ensures
        final(state).wf(),
        final(state).process_pool == old(state).process_pool,
        final(state).modules == old(state).modules,
        match r {
            Ok(pid) => {
                &&& old(state).process_table.next_pid() == Some(pid)
                &&& registered_fresh(old(state).process_table, final(state).process_table, pid, module)
            },
            Err(e) => {
                &&& e == ProcessError::NoPidAvailable
                &&& old(state).process_table.next_pid() is None
                &&& *final(state) == *old(state)
            },
        },
{
    let pid = match state.process_table.reserve() {
        Some(pid) => pid,
        None => return Err(ProcessError::NoPidAvailable),
    };
    let ghost reserved = state.process_table;
    let process = Process::from_block(pid, module);
    state.process_table.map(pid, process);
    proof {
        assert forall|q: int| q != pid implies #[trigger] state.process_table.same_slot(
            &old(state).process_table,
            q,
        ) by {
            assert(state.process_table.same_slot(&reserved, q));
            assert(reserved.same_slot(&old(state).process_table, q));
        }
    }
    Ok(pid)
}

/// The arity under which `spawn` looks up its entry function.
pub const SPAWN_ARITY: usize = 1;

/// The registers that an argument list fills: each element in order, then
/// the value that ends the list. None where they would not fit in a
/// context's registers.
pub fn unpack_arguments(args: Value) -> (r: Option<Vec<Value>>)
    ensures
        argument_values(args).len() <= NUM_REGISTERS ==> r is Some && r->Some_0@ == argument_values(args),
        argument_values(args).len() > NUM_REGISTERS ==> r is None,
{
    let mut regs: Vec<Value> = Vec::new();
    let mut cons = args;
    loop
        invariant
            regs@ + argument_values(cons) == argument_values(args),
            regs@.len() <= NUM_REGISTERS,
        decreases cons,
    {
        proof {
            crate::value::lemma_argument_values_nonempty(cons);
        }
        if regs.len() >= NUM_REGISTERS {
            return None;
        }
        match cons {
            Value::List(h, t) => {
                proof {
                    assert(argument_values(Value::List(h, t)) == seq![*h] + argument_values(*t));
                    assert(regs@.push(*h) + argument_values(*t) =~= regs@ + argument_values(
                        Value::List(h, t),
                    ));
                }
                regs.push(*h);
                cons = *t;
            },
            last => {
                proof {
                    assert(regs@.push(last) =~= regs@ + argument_values(last));
                }
                regs.push(last);
                return Some(regs);
            },
        }
    }
}

/// The table after `spawn` started a process under `pid` in `module` at
/// offset `entry`, its registers holding `regs` and then the empty value:
/// nothing else changed.
pub open spec fn registered_spawned(
    before: ProcessTable,
    after: ProcessTable,
    pid: PID,
    module: usize,
    entry: usize,
    regs: Seq<Value>,
) -> bool {
    let p = after.process(pid as int);
    let ctx = p.context_spec();
    &&& after.is_live(pid as int)
    &&& p.is_new(pid)
    &&& ctx.has_fresh_state()
    &&& ctx.module == module
    &&& ctx.ip == entry
    &&& forall|i: int| 0 <= i < regs.len() ==> #[trigger] ctx.x[i] == regs[i]
    &&& forall|i: int| regs.len() <= i < 16 ==> #[trigger] ctx.x[i] == Value::Empty
    &&& after.capacity_spec() == before.capacity_spec()
    &&& forall|q: int| q != pid ==> #[trigger] after.same_slot(&before, q)
}

/// Starts a process: allocates it in `module`, points it at the entry of
/// function `func`, fills its registers from the argument list `args`, and
/// queues it as a normal-priority job. Returns its identifier as a value.
pub fn spawn(state: &mut State, module: usize, func: usize, args: Value) -> (r: Result<
    Value,
    ProcessError,
>)
    requires
        old(state).wf(),
        module < old(state).modules@.len(),
        old(state).modules@[module as int].entry(func, SPAWN_ARITY) is Some,
    ensures
        final(state).wf(),
        final(state).modules == old(state).modules,
        argument_values(args).len() > NUM_REGISTERS ==> {
            &&& r == Err::<Value, ProcessError>(ProcessError::TooManyArguments)
            &&& *final(state) == *old(state)
        },
        argument_values(args).len() <= NUM_REGISTERS && old(state).process_table.next_pid() is None
            ==> {
            &&& r == Err::<Value, ProcessError>(ProcessError::NoPidAvailable)
            &&& *final(state) == *old(state)
        },
        argument_values(args).len() <= NUM_REGISTERS && old(state).process_table.next_pid() is Some
            ==> {
            let pid = old(state).process_table.next_pid()->Some_0;
            &&& r == Ok::<Value, ProcessError>(Value::Pid(pid))
            &&& registered_spawned(
                old(state).process_table,
                final(state).process_table,
                pid,
                module,
                old(state).modules@[module as int].entry(func, SPAWN_ARITY)->Some_0,
                argument_values(args),
            )
            &&& final(state).process_pool.jobs_spec() == old(state).process_pool.jobs_spec().push(
                Job { pid, priority: Priority::Normal },
            )
        },
{
    let regs = match unpack_arguments(args) {
        Some(regs) => regs,
        None => return Err(ProcessError::TooManyArguments),
    };
    let entry = state.modules[module].lookup(func, SPAWN_ARITY).unwrap();
    let pid = match allocate(state, module) {
        Ok(pid) => pid,
        Err(e) => return Err(e),
    };
    let ghost allocated = state.process_table;
    match state.process_table.get_mut(pid) {
        Some(process) => {
            let context = process.context_mut();
            context.ip = entry;
            context.load_registers(&regs);
        },
        None => {},
    }
    proof {
        allocated.lemma_live_process(pid as int);
        assert forall|q: int| q != pid implies #[trigger] state.process_table.same_slot(
            &old(state).process_table,
            q,
        ) by {
            assert(state.process_table.same_slot(&allocated, q));
            assert(allocated.same_slot(&old(state).process_table, q));
        }
    }
    state.process_pool.schedule(Job::normal(pid));
    Ok(Value::Pid(pid))
}

/// `after` is `before` once a message from `sender` was delivered and the
/// waiting flag cleared: the message went to the self-sent lane if `sender`
/// is the receiver, else to the lane from other processes, and nothing else
/// changed.
pub open spec fn delivered(before: Process, after: Process, sender: PID, message: Value) -> bool {
    let mb0 = before.local_data.mailbox;
    let mb1 = after.local_data.mailbox;
    &&& after.pid == before.pid
    &&& !after.waiting_for_message
    &&& after.context_spec() == before.context_spec()
    &&& after.local_data.thread_id == before.local_data.thread_id
    &&& after.local_data.dictionary == before.local_data.dictionary
    &&& if sender == before.pid {
        mb1.internal_lane() == mb0.internal_lane().push(message) && mb1.external_lane()
            == mb0.external_lane()
    } else {
        mb1.internal_lane() == mb0.internal_lane() && mb1.external_lane()
            == mb0.external_lane().push(message)
    }
}

/// Sends `msg` from the process `process` to the process that `pid` names.
/// A target that is not live is no error: nothing happens. A target that
/// was waiting for a message has its flag cleared and is queued as a
/// normal-priority job. Returns the message; a `pid` that is no process
/// identifier raises badarg.
pub fn send_message<'a>(state: &mut State, process: PID, pid: &Value, msg: &'a Value) -> (r: Result<
    &'a Value,
    Exception,
>)
    requires
        old(state).wf(),
    ensures
        final(state).wf(),
        final(state).modules == old(state).modules,
        pid.pid_spec() is None ==> {
            &&& r is Err
            &&& r->Err_0.reason == Reason::Badarg
            &&& r->Err_0.value == *pid
            &&& *final(state) == *old(state)
        },
        pid.pid_spec() is Some ==> r == Ok::<&'a Value, Exception>(msg),
        pid.pid_spec() is Some && !old(state).process_table.is_live(pid.pid_spec()->Some_0 as int)
            ==> *final(state) == *old(state),
        pid.pid_spec() is Some && old(state).process_table.is_live(pid.pid_spec()->Some_0 as int)
            ==> {
            let target = pid.pid_spec()->Some_0;
            let before = old(state).process_table.process(target as int);
            let jobs0 = old(state).process_pool.jobs_spec();
            &&& final(state).process_table.is_live(target as int)
            &&& delivered(before, final(state).process_table.process(target as int), process, *msg)
            &&& final(state).process_table.capacity_spec() == old(state).process_table.capacity_spec()
            &&& forall|q: int|
                q != target ==> #[trigger] final(state).process_table.same_slot(
                    &old(state).process_table,
                    q,
                )
            &&& final(state).process_pool.jobs_spec() == if before.waiting_for_message {
                jobs0.push(Job { pid: target, priority: Priority::Normal })
            } else {
                jobs0
            }
        },
{
    let target = match pid.as_pid() {
        Some(target) => target,
        None => return Err(Exception::badarg(pid.clone())),
    };
    let ghost table0 = state.process_table;
    let wake = match state.process_table.get_mut(target) {
        Some(receiver) => {
            proof {
                table0.lemma_live_process(target as int);
            }
            receiver.send_message(process, msg);
            if receiver.is_waiting_for_message() {
                receiver.set_waiting_for_message(false);
                true
            } else {
                false
            }
        },
        None => false,
    };
    if wake {
        state.process_pool.schedule(Job::normal(target));
    }
    Ok(msg)
}

/// Two allocations in a row never hand out the same identifier: the first
/// one is live by the time the second is chosen.
pub proof fn lemma_allocations_distinct(
    t0: ProcessTable,
    t1: ProcessTable,
    p1: PID,
    p2: PID,
    module: usize,
)
    requires
        t0.next_pid() == Some(p1),
        registered_fresh(t0, t1, p1, module),
        t1.next_pid() == Some(p2),
    ensures
        p1 != p2,
{
    t1.lemma_next_pid_available();
}

/// Spawning with a list of k elements (k at most 15) ended by a value that is
/// no cons cell puts the elements in registers 0 to k - 1 and the ending
/// value in register k.
pub proof fn lemma_spawn_fills_registers(
    before: ProcessTable,
    after: ProcessTable,
    pid: PID,
    module: usize,
    entry: usize,
    elems: Seq<Value>,
    tail: Value,
)
    requires
        !(tail is List),
        elems.len() < NUM_REGISTERS,
        registered_spawned(before, after, pid, module, entry, argument_values(build_list(elems, tail))),
    ensures
        forall|i: int| 0 <= i < elems.len() ==> #[trigger] after.process(pid as int).context_spec().x[i] == elems[i],
        after.process(pid as int).context_spec().x[elems.len() as int] == tail,
        forall|i: int| elems.len() < i < 16 ==> #[trigger] after.process(pid as int).context_spec().x[i] == Value::Empty,
{
    lemma_argument_values_of_list(elems, tail);
    let regs = elems.push(tail);
    let ctx = after.process(pid as int).context_spec();
    assert(ctx.x[elems.len() as int] == regs[elems.len() as int]);
    assert forall|i: int| 0 <= i < elems.len() implies #[trigger] ctx.x[i] == elems[i] by {
        assert(ctx.x[i] == regs[i]);
    }
}

} // verus!
