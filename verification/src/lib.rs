//! Register-allocation affinity hints.
//!
//! An SSA value's affinity is a hint used to guide a register allocator: it
//! names the class of allocation (a register class, a stack slot, or no
//! preference) that is likely to need the fewest fixup moves to satisfy the
//! operand constraints of the instructions that use the value.

use vstd::prelude::*;

pub mod abi;
pub mod affinity;
pub mod extname;
pub mod libcall;
pub mod regclass;
pub mod text;

pub use abi::{AbiParam, ArgumentLoc, RegUnit, TargetIsa, TypeCode};
pub use affinity::{Affinity, ConstraintKind, DisplayAffinity, OperandConstraint};
pub use extname::{ExternalName, ExternalNameView};
pub use libcall::LibCall;
pub use regclass::{RegClassData, RegClassIndex, RegInfo};

verus! {

} // verus!
