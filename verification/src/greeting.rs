use vstd::prelude::*;

verus! {

/// The greeting of the pipeline's command line.
pub fn greet() -> (s: &'static str)
    ensures
        s@ == "Hello, world!"@,
{
    "Hello, world!"
}

} // verus!
