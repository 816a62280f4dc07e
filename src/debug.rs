use vstd::prelude::*;

verus! {

/// Whether diagnostic output is wanted.
pub struct DebugSwitch {
    pub enabled: bool,
}

impl DebugSwitch {
    /// Diagnostics off.
    pub fn new() -> (r: Self)
        ensures
            !r.enabled,
    {
        DebugSwitch { enabled: false }
    }
}

/// Turns diagnostic output on or off.
pub fn set_debug(switch: &mut DebugSwitch, enabled: bool)
    ensures
        final(switch).enabled == enabled,
{
    switch.enabled = enabled;
}

/// Whether diagnostic output is on.
pub fn is_debug_enabled(switch: &DebugSwitch) -> (r: bool)
    ensures
        r == switch.enabled,
{
    switch.enabled
}

} // verus!
