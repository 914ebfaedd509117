use vstd::prelude::*;

verus! {

/// A runtime value: a signed 32-bit number, or the unit value that
/// declarations produce.
#[derive(Debug, Clone, Copy, PartialEq, Eq, Structural)]
pub enum Val {
    Number(i32),
    Unit,
}

} // verus!
