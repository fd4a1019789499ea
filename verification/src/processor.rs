//! What is known of the processor.

use vstd::prelude::*;

verus! {

/// The processor frequency override in MHz, or 0 if no override was provided.
pub fn processor_frequency_override(freq: Option<u16>) -> (r: u16)
    ensures
        r == (match freq {
            Some(f) => f,
            None => 0,
        }),
{
    match freq {
        Some(f) => f,
        None => 0,
    }
}

} // verus!
