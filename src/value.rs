use vstd::prelude::*;

verus! {

/// A tagged runtime value, as held in registers, on the stack and in mailboxes.
#[derive(PartialEq, Eq, Debug)]
pub enum Value {
    /// The empty value that unwritten registers hold.
    Empty,
    /// The empty list, which terminates a proper list.
    Nil,
    Integer(i64),
    /// An atom, by its index in the atom table.
    Atom(usize),
    /// A process identifier.
    Pid(usize),
    /// A cons cell: head and tail.
    List(Box<Value>, Box<Value>),
}

impl Clone for Value {
    /// A deep copy: compound values are copied cell by cell.
    fn clone(&self) -> (r: Self)
        ensures
            r == *self,
        decreases self,
    {
        match self {
            Value::Empty => Value::Empty,
            Value::Nil => Value::Nil,
            Value::Integer(i) => Value::Integer(*i),
            Value::Atom(a) => Value::Atom(*a),
            Value::Pid(p) => Value::Pid(*p),
            Value::List(h, t) => {
                let h2: Value = (**h).clone();
                let t2: Value = (**t).clone();
                Value::List(Box::new(h2), Box::new(t2))
            },
        }
    }
}

impl Value {
    /// The process identifier that this value carries, if it is one.
    pub open spec fn pid_spec(self) -> Option<usize> {
        match self {
            Value::Pid(p) => Some(p),
            _ => None,
        }
    }

    pub fn as_pid(&self) -> (r: Option<usize>)
        ensures
            r == self.pid_spec(),
    {
        match self {
            Value::Pid(p) => Some(*p),
            _ => None,
        }
    }
}

/// The register contents that an argument list stands for: each head of the
/// chain of cons cells in order, then the value that ends the chain.
pub open spec fn argument_values(args: Value) -> Seq<Value>
    decreases args,
{
    match args {
        Value::List(h, t) => seq![*h] + argument_values(*t),
        _ => seq![args],
    }
}

pub proof fn lemma_argument_values_nonempty(args: Value)
    ensures
        argument_values(args).len() >= 1,
    decreases args,
{
    if let Value::List(h, t) = args {
        lemma_argument_values_nonempty(*t);
    }
}

/// The argument list whose cells hold `elems` in order, ended by `tail`.
pub open spec fn build_list(elems: Seq<Value>, tail: Value) -> Value
    decreases elems.len(),
{
    if elems.len() == 0 {
        tail
    } else {
        Value::List(Box::new(elems[0]), Box::new(build_list(elems.drop_first(), tail)))
    }
}

/// A list of `elems` ended by a value that is no cons cell fills one
/// register per element, in order, and one more with the value that ends it.
pub proof fn lemma_argument_values_of_list(elems: Seq<Value>, tail: Value)
    requires
        !(tail is List),
    ensures
        argument_values(build_list(elems, tail)) == elems.push(tail),
    decreases elems.len(),
{
    if elems.len() > 0 {
        lemma_argument_values_of_list(elems.drop_first(), tail);
        assert(seq![elems[0]] + elems.drop_first().push(tail) =~= elems.push(tail));
    } else {
        assert(seq![tail] =~= elems.push(tail));
    }
}

} // verus!
