use vstd::prelude::*;

verus! {

/// Context shared read-only by every session: the path of the watched file.
pub struct State {
    pub filepath: String,
}

impl State {
    pub fn new(filepath: String) -> (r: State)
        ensures
            r.filepath@ == filepath@,
    {
        State { filepath }
    }
}

} // verus!
