use beam_process::context::{ExecutionContext, NUM_REGISTERS};
use beam_process::exception::Reason;
use beam_process::mailbox::Mailbox;
use beam_process::module::Module;
use beam_process::pool::{Job, Priority};
use beam_process::process::{
    allocate, send_message, spawn, unpack_arguments, Process, ProcessError, SPAWN_ARITY,
};
use beam_process::value::Value;
use beam_process::vm::State;

const F: usize = 7;
const F_ENTRY: usize = 42;

fn list(elems: Vec<Value>) -> Value {
    let mut v = Value::Nil;
    for e in elems.into_iter().rev() {
        v = Value::List(Box::new(e), Box::new(v));
    }
    v
}

fn runtime(max_processes: usize) -> State {
    let mut m = Module::new();
    m.add_function(F, SPAWN_ARITY, F_ENTRY);
    State::new(max_processes, vec![m])
}

fn spawn_idle(state: &mut State) -> usize {
    match spawn(state, 0, F, Value::Nil).unwrap() {
        Value::Pid(p) => p,
        other => panic!("spawn returned {:?}", other),
    }
}

fn process(state: &State, pid: usize) -> &Process {
    state.process_table.get(pid).unwrap()
}

#[test]
fn fresh_context_registers_empty() {
    let ctx = ExecutionContext::new(3);
    for i in 0..NUM_REGISTERS {
        assert_eq!(ctx.x[i], Value::Empty);
        assert_eq!(f64::from_bits(ctx.f[i]), 0.0);
    }
    assert!(ctx.stack.is_empty());
    assert_eq!(ctx.catches, 0);
    assert_eq!(ctx.ip, 0);
    assert_eq!(ctx.cp, None);
    assert_eq!(ctx.live, 0);
    assert_eq!(ctx.module, 3);
    assert!(ctx.bs.is_none());
    assert!(ctx.exc.is_none());
    let ip = ctx.instr_ptr();
    assert_eq!((ip.module, ip.ip), (3, 0));
}

#[test]
fn spawn_zero_arguments_reads_register_zero() {
    let mut state = runtime(4);
    let pid = spawn_idle(&mut state);
    let ctx = process(&state, pid).context();
    assert_eq!(ctx.x[0], Value::Nil);
    for i in 1..NUM_REGISTERS {
        assert_eq!(ctx.x[i], Value::Empty);
    }
}

#[test]
fn from_block_is_fresh() {
    let p = Process::from_block(5, 2);
    assert_eq!(p.pid, 5);
    assert!(!p.is_main());
    assert!(!p.is_waiting_for_message());
    assert!(p.local_data().thread_id.is_none());
    assert!(p.local_data().dictionary.is_empty());
    assert!(p.local_data().mailbox.internal_messages().is_empty());
    assert!(p.local_data().mailbox.external_messages().is_empty());
    assert_eq!(p.context().module, 2);
    assert!(Process::from_block(0, 2).is_main());
}

#[test]
fn allocations_are_distinct() {
    let mut state = runtime(8);
    let mut seen: Vec<usize> = Vec::new();
    for _ in 0..8 {
        let pid = allocate(&mut state, 0).unwrap();
        assert!(!seen.contains(&pid));
        assert_eq!(process(&state, pid).pid, pid);
        seen.push(pid);
    }
    assert_eq!(seen, vec![0, 1, 2, 3, 4, 5, 6, 7]);
    assert_eq!(allocate(&mut state, 0), Err(ProcessError::NoPidAvailable));
    assert!(state.process_pool.jobs().is_empty());
}

#[test]
fn allocate_without_capacity_fails() {
    let mut state = runtime(0);
    assert_eq!(allocate(&mut state, 0), Err(ProcessError::NoPidAvailable));
    assert!(state.process_table.get(0).is_none());
}

#[test]
fn spawn_without_capacity_fails() {
    let mut state = runtime(1);
    spawn_idle(&mut state);
    assert_eq!(spawn(&mut state, 0, F, Value::Nil), Err(ProcessError::NoPidAvailable));
    assert_eq!(state.process_pool.jobs().len(), 1);
}

#[test]
fn spawn_fills_registers_in_order() {
    for k in 0..NUM_REGISTERS {
        let mut state = runtime(2);
        let elems: Vec<Value> = (0..k).map(|i| Value::Integer(i as i64 * 10)).collect();
        let pid = match spawn(&mut state, 0, F, list(elems.clone())).unwrap() {
            Value::Pid(p) => p,
            other => panic!("spawn returned {:?}", other),
        };
        let ctx = process(&state, pid).context();
        for i in 0..k {
            assert_eq!(ctx.x[i], elems[i]);
        }
        assert_eq!(ctx.x[k], Value::Nil);
        for i in k + 1..NUM_REGISTERS {
            assert_eq!(ctx.x[i], Value::Empty);
        }
    }
}

#[test]
fn spawn_improper_list_keeps_tail() {
    let mut state = runtime(2);
    let args = Value::List(Box::new(Value::Atom(1)), Box::new(Value::Integer(9)));
    let pid = spawn_idle(&mut state);
    assert_eq!(pid, 0);
    let r = spawn(&mut state, 0, F, args).unwrap();
    assert_eq!(r, Value::Pid(1));
    let ctx = process(&state, 1).context();
    assert_eq!(ctx.x[0], Value::Atom(1));
    assert_eq!(ctx.x[1], Value::Integer(9));
    assert_eq!(ctx.x[2], Value::Empty);
}

#[test]
fn spawn_too_many_arguments_fails() {
    let mut state = runtime(2);
    let elems: Vec<Value> = (0..NUM_REGISTERS).map(|i| Value::Integer(i as i64)).collect();
    assert_eq!(
        spawn(&mut state, 0, F, list(elems)),
        Err(ProcessError::TooManyArguments)
    );
    assert!(state.process_table.get(0).is_none());
    assert!(state.process_pool.jobs().is_empty());
}

#[test]
fn unpack_arguments_bounds() {
    let fifteen: Vec<Value> = (0..15).map(|i| Value::Integer(i)).collect();
    let regs = unpack_arguments(list(fifteen.clone())).unwrap();
    assert_eq!(regs.len(), NUM_REGISTERS);
    assert_eq!(regs[..15], fifteen[..]);
    assert_eq!(regs[15], Value::Nil);
    let sixteen: Vec<Value> = (0..16).map(|i| Value::Integer(i)).collect();
    assert!(unpack_arguments(list(sixteen)).is_none());
    assert_eq!(unpack_arguments(Value::Atom(4)).unwrap(), vec![Value::Atom(4)]);
}

#[test]
fn spawn_two_arguments_at_f() {
    let mut state = runtime(4);
    let a = Value::Atom(11);
    let b = Value::Integer(-5);
    let r = spawn(&mut state, 0, F, list(vec![a.clone(), b.clone()])).unwrap();
    let pid = match r {
        Value::Pid(p) => p,
        other => panic!("spawn returned {:?}", other),
    };
    let ctx = process(&state, pid).context();
    assert_eq!(ctx.x[0], a);
    assert_eq!(ctx.x[1], b);
    assert_eq!(ctx.x[2], Value::Nil);
    assert_eq!(ctx.ip, F_ENTRY);
    assert_eq!(ctx.module, 0);
    assert_eq!(
        state.process_pool.jobs().clone(),
        vec![Job { pid, priority: Priority::Normal }]
    );
}

#[test]
fn self_send_internal_other_external() {
    let mut state = runtime(4);
    let p1 = spawn_idle(&mut state);
    let p2 = spawn_idle(&mut state);
    let m1 = Value::Integer(1);
    let m2 = Value::Integer(2);
    assert_eq!(send_message(&mut state, p1, &Value::Pid(p1), &m1), Ok(&m1));
    assert_eq!(send_message(&mut state, p2, &Value::Pid(p1), &m2), Ok(&m2));
    let mb = &process(&state, p1).local_data().mailbox;
    assert_eq!(mb.internal_messages().clone(), vec![m1]);
    assert_eq!(mb.external_messages().clone(), vec![m2]);
    let mb2 = &process(&state, p2).local_data().mailbox;
    assert!(mb2.internal_messages().is_empty());
    assert!(mb2.external_messages().is_empty());
}

#[test]
fn wake_on_message() {
    let mut state = runtime(4);
    let p1 = spawn_idle(&mut state);
    let p2 = spawn_idle(&mut state);
    let queued = state.process_pool.jobs().len();
    state
        .process_table
        .get_mut(p1)
        .unwrap()
        .set_waiting_for_message(true);
    let m = Value::Atom(3);
    assert_eq!(send_message(&mut state, p2, &Value::Pid(p1), &m), Ok(&m));
    assert!(!process(&state, p1).is_waiting_for_message());
    let jobs = state.process_pool.jobs();
    assert_eq!(jobs.len(), queued + 1);
    assert_eq!(jobs[queued], Job { pid: p1, priority: Priority::Normal });
    assert_eq!(jobs.iter().filter(|j| j.pid == p1).count(), 2);
}

#[test]
fn no_wake_when_not_waiting() {
    let mut state = runtime(4);
    let p1 = spawn_idle(&mut state);
    let p2 = spawn_idle(&mut state);
    let queued = state.process_pool.jobs().len();
    let m = Value::Atom(3);
    send_message(&mut state, p2, &Value::Pid(p1), &m).unwrap();
    assert!(!process(&state, p1).is_waiting_for_message());
    assert_eq!(state.process_pool.jobs().len(), queued);
    assert_eq!(
        process(&state, p1).local_data().mailbox.external_messages().clone(),
        vec![m]
    );
}

#[test]
fn send_to_unknown_pid_is_silent() {
    let mut state = runtime(4);
    let p1 = spawn_idle(&mut state);
    let m = Value::Integer(77);
    assert_eq!(send_message(&mut state, p1, &Value::Pid(3), &m), Ok(&m));
    assert_eq!(send_message(&mut state, p1, &Value::Pid(1000), &m), Ok(&m));
    let mb = &process(&state, p1).local_data().mailbox;
    assert!(mb.internal_messages().is_empty());
    assert!(mb.external_messages().is_empty());
    assert_eq!(state.process_pool.jobs().len(), 1);
}

#[test]
fn send_to_non_pid_is_badarg() {
    let mut state = runtime(4);
    let p1 = spawn_idle(&mut state);
    let m = Value::Integer(77);
    let e = send_message(&mut state, p1, &Value::Atom(2), &m).unwrap_err();
    assert_eq!(e.reason, Reason::Badarg);
    assert_eq!(e.value, Value::Atom(2));
}

#[test]
fn process_send_message_lanes() {
    let mut p = Process::from_block(4, 0);
    let m = list(vec![Value::Integer(1), Value::Atom(2)]);
    p.send_message(4, &m);
    p.send_message(9, &Value::Nil);
    assert_eq!(p.local_data().mailbox.internal_messages().clone(), vec![m]);
    assert_eq!(p.local_data().mailbox.external_messages().clone(), vec![Value::Nil]);
}

#[test]
fn mailbox_lanes_keep_order() {
    let mut mb = Mailbox::new();
    mb.send_external(&Value::Integer(1));
    mb.send_external(&Value::Integer(2));
    mb.send_internal(&Value::Integer(3));
    assert_eq!(
        mb.external_messages().clone(),
        vec![Value::Integer(1), Value::Integer(2)]
    );
    assert_eq!(mb.internal_messages().clone(), vec![Value::Integer(3)]);
}

#[test]
fn module_lookup_latest_wins() {
    let mut m = Module::new();
    assert_eq!(m.lookup(1, 1), None);
    m.add_function(1, 1, 10);
    m.add_function(1, 2, 20);
    m.add_function(1, 1, 30);
    assert_eq!(m.lookup(1, 1), Some(30));
    assert_eq!(m.lookup(1, 2), Some(20));
    assert_eq!(m.lookup(2, 1), None);
}

#[test]
fn value_clone_is_deep() {
    let v = list(vec![Value::Pid(3), list(vec![Value::Integer(-1)])]);
    let c = v.clone();
    assert_eq!(c, v);
    assert_eq!(v.as_pid(), None);
    assert_eq!(Value::Pid(8).as_pid(), Some(8));
}

#[test]
fn context_mut_sets_registers() {
    let mut p = Process::from_block(1, 0);
    let ctx = p.context_mut();
    ctx.load_registers(&vec![Value::Atom(1), Value::Atom(2)]);
    ctx.ip = 5;
    assert_eq!(p.context().x[1], Value::Atom(2));
    assert_eq!(p.context().x[2], Value::Empty);
    assert_eq!(p.context().ip, 5);
    p.local_data_mut().thread_id = Some(2);
    assert_eq!(p.local_data().thread_id, Some(2));
}

#[test]
fn freed_pid_is_reused_after_reserve() {
    let mut state = runtime(3);
    assert_eq!(state.process_table.reserve(), Some(0));
    assert_eq!(allocate(&mut state, 0), Ok(1));
    assert_eq!(state.process_table.get(0).map(|p| p.pid), None);
}
