use vstd::prelude::*;

verus! {

/// The header that starts every reference-counted CEF structure. This library installs no
/// counting callbacks, so the header holds the structure's size alone.
#[derive(Clone, Copy, Debug, PartialEq, Eq, Structural)]
pub struct BaseRefCounted {
    pub size: usize,
}

/// The header of a structure of `size` bytes, with no counting callbacks.
pub fn new_cef_base_ref_counted(size: usize) -> (r: BaseRefCounted)
    ensures
        r.size == size,
{
    BaseRefCounted { size }
}

} // verus!
