use vstd::prelude::*;

verus! {

/// State carried while a schema is compiled: where in the instance the
/// schema being compiled applies.
pub struct CompilationContext {
    pub curr_instance_path: Vec<String>,
}

impl CompilationContext {
    pub fn new() -> (r: CompilationContext)
        ensures
            r.curr_instance_path@.len() == 0,
    {
        CompilationContext { curr_instance_path: Vec::new() }
    }
}

/// A copy of an instance path, segment for segment.
pub fn copy_path(p: &Vec<String>) -> (r: Vec<String>)
    ensures
        r@ == p@,
{
    let mut out: Vec<String> = Vec::new();
    let mut i: usize = 0;
    while i < p.len()
        invariant
            i <= p.len(),
            out@ == p@.subrange(0, i as int),
        decreases p.len() - i,
    {
        out.push(p[i].clone());
        proof {
            assert(out@ =~= p@.subrange(0, i + 1));
        }
        i = i + 1;
    }
    proof {
        assert(out@ =~= p@);
    }
    out
}

} // verus!
