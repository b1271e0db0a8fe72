//! Kernel object handles.
use vstd::prelude::*;

verus! {

/// An opaque handle naming a kernel object.
#[derive(Debug, Clone, Copy, PartialEq, Eq, Structural)]
pub struct ObjectHandle(pub u64);

} // verus!
