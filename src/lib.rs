use vstd::prelude::*;

pub mod arch;

verus! {

} // verus!
