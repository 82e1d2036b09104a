//! The state of the free-variable analysis: the names bound in each
//! enclosing function, and the free names found so far.
use vstd::prelude::*;
use vstd::string::StringExecFns;

verus! {

#[derive(Debug)]
pub struct FreeVariableFinder {
    /// The names bound at each nesting level, outermost first.
    pub varmap: Vec<Vec<String>>,
    /// The free names found in the function being analysed.
    pub cur_fv: Vec<String>,
}

impl FreeVariableFinder {
    /// A finder whose outermost level binds `console` only.
    pub fn new() -> (r: FreeVariableFinder)
        ensures
            r.varmap@.len() == 1,
            r.varmap@[0]@.len() == 1,
            r.varmap@[0]@[0]@ == "console"@,
            r.cur_fv@.len() == 0,
    {
        let mut top: Vec<String> = Vec::new();
        top.push(String::from_str("console"));
        let mut varmap: Vec<Vec<String>> = Vec::new();
        varmap.push(top);
        FreeVariableFinder { varmap, cur_fv: Vec::new() }
    }
}

} // verus!
