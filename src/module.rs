use vstd::prelude::*;

verus! {

/// One entry of a module's function table: a function, by name and arity,
/// and the offset of its first instruction.
#[derive(PartialEq, Eq, Structural, Clone, Copy, Debug)]
pub struct FunEntry {
    pub name: usize,
    pub arity: usize,
    pub offset: usize,
}

/// The entry offset that a function table gives (name, arity): the latest
/// entry for that key wins.
pub open spec fn offset_of(funs: Seq<FunEntry>, name: usize, arity: usize) -> Option<usize>
    decreases funs.len(),
{
    if funs.len() == 0 {
        None
    } else {
        let e = funs.last();
        if e.name == name && e.arity == arity {
            Some(e.offset)
        } else {
            offset_of(funs.drop_last(), name, arity)
        }
    }
}

/// A loaded bytecode module, as far as this core reads it: its function table.
pub struct Module {
    funs: Vec<FunEntry>,
}

impl Module {
    pub closed spec fn entry(&self, name: usize, arity: usize) -> Option<usize> {
        offset_of(self.funs@, name, arity)
    }

    pub fn new() -> (r: Module)
        ensures
            forall|n: usize, a: usize| r.entry(n, a) is None,
    {
        Module { funs: Vec::new() }
    }

    /// Defines (or redefines) a function's entry offset.
    pub fn add_function(&mut self, name: usize, arity: usize, offset: usize)
        ensures
            forall|n: usize, a: usize|
                #![trigger final(self).entry(n, a)]
                final(self).entry(n, a) == if n == name && a == arity {
                    Some(offset)
                } else {
                    old(self).entry(n, a)
                },
    {
        self.funs.push(FunEntry { name, arity, offset });
        proof {
            assert forall|n: usize, a: usize| true implies offset_of(self.funs@, n, a) == if n
                == name && a == arity {
                Some(offset)
            } else {
                offset_of(old(self).funs@, n, a)
            } by {
                assert(self.funs@.drop_last() =~= old(self).funs@);
            }
        }
    }

    /// The entry offset of a function, if the module defines it.
    pub fn lookup(&self, name: usize, arity: usize) -> (r: Option<usize>)
        ensures
            r == self.entry(name, arity),
    {
        let mut i: usize = self.funs.len();
        proof {
            assert(self.funs@.take(i as int) =~= self.funs@);
        }
        while i > 0
            invariant
                i <= self.funs@.len(),
                offset_of(self.funs@.take(i as int), name, arity) == offset_of(self.funs@, name, arity),
            decreases i,
        {
            let e = self.funs[i - 1];
            proof {
                assert(self.funs@.take(i as int).drop_last() =~= self.funs@.take(i - 1));
            }
            if e.name == name && e.arity == arity {
                return Some(e.offset);
            }
            i = i - 1;
        }
        None
    }
}

} // verus!
