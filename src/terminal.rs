use vstd::prelude::*;

use terminal_size::{terminal_size, Height, Width};

verus! {

/// Relies on `terminal_size::terminal_size`: the width and height of the
/// terminal on standard output, `None` where it is not a terminal; it hands
/// back a size only where both are positive.
#[verifier::external_body]
pub(crate) fn terminal_dimensions() -> (r: Option<(u16, u16)>)
    ensures
        match r {
            Some((width, height)) => width > 0 && height > 0,
            None => true,
        },
{
    match terminal_size() {
        Some((Width(w), Height(h))) => Some((w, h)),
        None => None,
    }
}

} // verus!
