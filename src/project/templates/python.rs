use vstd::prelude::*;
use vstd::laws_cmp::obeys_cmp;
use std::collections::BTreeSet;

verus! {

/// The model of a `requirements.txt`: the set of requirement lines, in order.
pub struct PythonRequirements {
    pub requirements: BTreeSet<String>,
}

impl PythonRequirements {
    pub fn new() -> (r: Self)
        ensures
            r.requirements@ == Set::<String>::empty(),
    {
        PythonRequirements { requirements: BTreeSet::new() }
    }

    /// Also requires `req`; a requirement already there stays once. What is known of the set
    /// afterwards rests on `String`'s ordering being a total order, as std documents it.
    pub fn requirement(self, req: String) -> (r: Self)
        ensures
            obeys_cmp::<String>() ==> r.requirements@ == self.requirements@.insert(req),
    {
        let mut s = self;
        s.requirements.insert(req);
        s
    }
}

} // verus!
