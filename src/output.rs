use vstd::prelude::*;

verus! {

/// The console sink: it prints each sample's labels and values.
pub struct PrintOutput {
    pub id: u16,
}

impl PrintOutput {
    pub fn new(id: u16) -> (r: PrintOutput)
        ensures
            r.id == id,
    {
        PrintOutput { id }
    }
}

} // verus!
