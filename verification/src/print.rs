use vstd::prelude::*;

verus! {

/// Hook for setting up terminal color handling before any output is
/// written. Color selection itself lives with the binary, so there is
/// nothing to prepare here; the hook is kept so callers have a single,
/// stable place to invoke.
pub fn color_init() {
}

} // verus!
