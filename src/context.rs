use vstd::prelude::*;

use crate::exception::Exception;
use crate::value::Value;

verus! {

/// How many general-purpose and floating-point registers a context has.
pub const NUM_REGISTERS: usize = 16;

/// A process's private garbage-collected memory region.
pub struct Heap {
    objects: Vec<Value>,
}

impl Heap {
    /// The objects allocated on the heap.
    pub closed spec fn objects_spec(&self) -> Seq<Value> {
        self.objects@
    }

    pub fn new() -> (r: Heap)
        ensures
            r.objects_spec().len() == 0,
    {
        Heap { objects: Vec::new() }
    }
}

/// The execution state of one process's current activation.
pub struct ExecutionContext {
    /// X registers.
    pub x: [Value; 16],
    /// Floating-point registers, each as the bit pattern of an IEEE 754 double.
    pub f: [u64; 16],
    /// Stack (accessible through Y registers).
    pub stack: Vec<Value>,
    pub heap: Heap,
    /// Number of catches on the stack.
    pub catches: usize,
    /// Offset of the next instruction within `module`.
    pub ip: usize,
    /// Continuation offset: where to resume once the current call returns.
    pub cp: Option<usize>,
    /// Number of live registers.
    pub live: usize,
    /// Handle of the module whose instructions `ip` indexes, in the runtime's
    /// module registry.
    pub module: usize,
    /// The binary under construction, present only during a construction sequence.
    pub bs: Option<Vec<u8>>,
    /// The exception captured and not yet handled.
    pub exc: Option<Exception>,
}

/// Where execution stands: a module and an offset within it.
pub struct InstrPtr {
    /// Handle of the module holding the instructions.
    pub module: usize,
    /// Offset of the current instruction.
    pub ip: usize,
}

impl ExecutionContext {
    /// Every register but the control state as a fresh context has it.
    pub open spec fn has_fresh_state(&self) -> bool {
        &&& self.stack@.len() == 0
        &&& self.heap.objects_spec().len() == 0
        &&& self.catches == 0
        &&& self.cp is None
        &&& self.live == 0
        &&& self.bs is None
        &&& self.exc is None
        &&& forall|i: int| 0 <= i < 16 ==> #[trigger] self.f[i] == 0u64
    }

    /// The context as `new(module)` builds it.
    pub open spec fn is_fresh(&self, module: usize) -> bool {
        &&& self.has_fresh_state()
        &&& self.ip == 0
        &&& self.module == module
        &&& forall|i: int| 0 <= i < 16 ==> #[trigger] self.x[i] == Value::Empty
    }

    pub fn new(module: usize) -> (r: ExecutionContext)
        ensures
            r.is_fresh(module),
    {
        ExecutionContext {
            x: [
                Value::Empty, Value::Empty, Value::Empty, Value::Empty,
                Value::Empty, Value::Empty, Value::Empty, Value::Empty,
                Value::Empty, Value::Empty, Value::Empty, Value::Empty,
                Value::Empty, Value::Empty, Value::Empty, Value::Empty,
            ],
            f: [0u64; 16],
            stack: Vec::new(),
            heap: Heap::new(),
            catches: 0,
            ip: 0,
            cp: None,
            live: 0,
            module,
            bs: None,
            exc: None,
        }
    }

    /// Where execution of this context stands.
    pub fn instr_ptr(&self) -> (r: InstrPtr)
        ensures
            r.module == self.module,
            r.ip == self.ip,
    {
        InstrPtr { module: self.module, ip: self.ip }
    }

    /// Writes `values` into registers 0, 1, ... in order; the other
    /// registers and the rest of the context stay as they were.
    pub fn load_registers(&mut self, values: &Vec<Value>)
        requires
            values@.len() <= 16,
        ensures
            forall|i: int| 0 <= i < values@.len() ==> #[trigger] final(self).x[i] == values@[i],
            forall|i: int| values@.len() <= i < 16 ==> #[trigger] final(self).x[i] == old(self).x[i],
            *final(self) == (ExecutionContext { x: final(self).x, ..*old(self) }),
    {
        let mut i: usize = 0;
        while i < values.len()
            invariant
                i <= values@.len() <= 16,
                forall|j: int| 0 <= j < i ==> #[trigger] self.x[j] == values@[j],
                forall|j: int| i <= j < 16 ==> #[trigger] self.x[j] == old(self).x[j],
                *self == (ExecutionContext { x: self.x, ..*old(self) }),
            decreases values@.len() - i,
        {
            self.x[i] = values[i].clone();
            i = i + 1;
        }
    }
}

} // verus!
