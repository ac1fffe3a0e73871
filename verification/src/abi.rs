//! A model of the ABI-level description of a function parameter.
//!
//! The calling convention assigns every parameter a location: not yet
//! placed, a concrete register, or a stack offset. The affinity engine only
//! reads the location's kind and, for a register-resident parameter, the
//! register class that the target would use for the parameter's value type.

use vstd::prelude::*;
use crate::regclass::RegClassIndex;

verus! {

/// A hardware register unit number.
pub type RegUnit = u16;

/// A code numbering the machine value types of a target.
pub type TypeCode = u8;

/// Where an ABI-level parameter lives.
#[derive(Clone, Copy, Debug, PartialEq, Eq, Structural)]
pub enum ArgumentLoc {
    /// The parameter has not been placed yet.
    Unassigned,
    /// The parameter lives in the given register unit.
    Reg(RegUnit),
    /// The parameter lives on the stack, at the given byte offset.
    Stack(i32),
}

/// An ABI-level function parameter: its value type and its location.
#[derive(Clone, Copy, Debug, PartialEq, Eq, Structural)]
pub struct AbiParam {
    /// The machine value type of the parameter.
    pub value_type: TypeCode,
    /// Where the calling convention placed the parameter.
    pub location: ArgumentLoc,
}

/// The target-specific table mapping every machine value type to the
/// register class that would hold a value of that type, addressed by
/// `TypeCode`. Total on a given target: every representable type maps to
/// exactly one class.
pub struct TargetIsa {
    /// The class for each value type, in type-code order.
    pub abi_classes: Vec<RegClassIndex>,
}

impl TargetIsa {
    /// The register class that would hold an ABI value of type `ty`.
    pub fn regclass_for_abi_type(&self, ty: TypeCode) -> (r: RegClassIndex)
        requires
            (ty as int) < self.abi_classes@.len(),
        ensures
            r == self.abi_classes@[ty as int],
    {
        self.abi_classes[ty as usize]
    }
}

} // verus!
