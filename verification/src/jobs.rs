//! Background jobs. The jobs themselves do storage and network work
//! and run on the transport side; this marker type names the facility.

use vstd::prelude::*;
use crate::internal::XErr;
use crate::text::str_eq;

verus! {

/// Jobs.
pub struct Jobs;

impl Jobs {
    /// Decides whether a job name selects a known job: the example job
    /// is the only one. Running the selected job is transport-side
    /// work.
    pub fn select(job: &str) -> (r: Result<(), XErr>)
        ensures
            match r {
                Ok(()) => job@ == "example"@,
                Err(e) => job@ != "example"@ && e is Jobs,
            },
    {
        if str_eq(job, "example") {
            Ok(())
        } else {
            Err(XErr::jobs("job not found"))
        }
    }
}

} // verus!
