//! Kinds of GPU buffers.
use vstd::prelude::*;

verus! {

/// How a growable GPU buffer is bound.
#[derive(Debug, Clone, Copy, PartialEq, Eq, Hash)]
pub enum DynamicBufferKind {
    Storage,
    Uniform,
}

} // verus!
