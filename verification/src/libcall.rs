//! Well-known runtime library routines that generated code may call.
//!
//! The affinity engine never inspects these; they exist so that external
//! entities can name a runtime routine without a symbol table.

use vstd::prelude::*;
use crate::text::{push_str_chars, str_eq};

verus! {

/// A well-known runtime library routine.
#[derive(Clone, Copy, Debug, PartialEq, Eq, Structural)]
pub enum LibCall {
    /// Probe for stack overflow.
    Probestack,
    /// Round a single-precision number up.
    CeilF32,
    /// Round a double-precision number up.
    CeilF64,
    /// Round a single-precision number down.
    FloorF32,
    /// Round a double-precision number down.
    FloorF64,
    /// Round a single-precision number towards zero.
    TruncF32,
    /// Round a double-precision number towards zero.
    TruncF64,
    /// Round a single-precision number to the nearest integer.
    NearestF32,
    /// Round a double-precision number to the nearest integer.
    NearestF64,
}

/// The name of a runtime routine, as written in textual form.
pub open spec fn libcall_text(lc: LibCall) -> Seq<char> {
    match lc {
        LibCall::Probestack => "Probestack"@,
        LibCall::CeilF32 => "CeilF32"@,
        LibCall::CeilF64 => "CeilF64"@,
        LibCall::FloorF32 => "FloorF32"@,
        LibCall::FloorF64 => "FloorF64"@,
        LibCall::TruncF32 => "TruncF32"@,
        LibCall::TruncF64 => "TruncF64"@,
        LibCall::NearestF32 => "NearestF32"@,
        LibCall::NearestF64 => "NearestF64"@,
    }
}

/// The routine whose name a text spells, if any: exactly the known names
/// are accepted.
pub open spec fn libcall_of_text(s: Seq<char>) -> Result<LibCall, ()> {
    if s == libcall_text(LibCall::Probestack) {
        Ok(LibCall::Probestack)
    } else if s == libcall_text(LibCall::CeilF32) {
        Ok(LibCall::CeilF32)
    } else if s == libcall_text(LibCall::CeilF64) {
        Ok(LibCall::CeilF64)
    } else if s == libcall_text(LibCall::FloorF32) {
        Ok(LibCall::FloorF32)
    } else if s == libcall_text(LibCall::FloorF64) {
        Ok(LibCall::FloorF64)
    } else if s == libcall_text(LibCall::TruncF32) {
        Ok(LibCall::TruncF32)
    } else if s == libcall_text(LibCall::TruncF64) {
        Ok(LibCall::TruncF64)
    } else if s == libcall_text(LibCall::NearestF32) {
        Ok(LibCall::NearestF32)
    } else if s == libcall_text(LibCall::NearestF64) {
        Ok(LibCall::NearestF64)
    } else {
        Err(())
    }
}

impl LibCall {
    /// The routine's name.
    pub fn to_text(&self) -> (r: String)
        ensures
            r@ == libcall_text(*self),
    {
        let mut s = String::new();
        match *self {
            LibCall::Probestack => push_str_chars(&mut s, "Probestack"),
            LibCall::CeilF32 => push_str_chars(&mut s, "CeilF32"),
            LibCall::CeilF64 => push_str_chars(&mut s, "CeilF64"),
            LibCall::FloorF32 => push_str_chars(&mut s, "FloorF32"),
            LibCall::FloorF64 => push_str_chars(&mut s, "FloorF64"),
            LibCall::TruncF32 => push_str_chars(&mut s, "TruncF32"),
            LibCall::TruncF64 => push_str_chars(&mut s, "TruncF64"),
            LibCall::NearestF32 => push_str_chars(&mut s, "NearestF32"),
            LibCall::NearestF64 => push_str_chars(&mut s, "NearestF64"),
        }
        proof {
            assert(s@ =~= libcall_text(*self));
        }
        s
    }

    /// Parse a routine name.
    pub fn from_text(s: &str) -> (r: Result<LibCall, ()>)
        ensures
            r == libcall_of_text(s@),
    {
        if str_eq(s, "Probestack") {
            Ok(LibCall::Probestack)
        } else if str_eq(s, "CeilF32") {
            Ok(LibCall::CeilF32)
        } else if str_eq(s, "CeilF64") {
            Ok(LibCall::CeilF64)
        } else if str_eq(s, "FloorF32") {
            Ok(LibCall::FloorF32)
        } else if str_eq(s, "FloorF64") {
            Ok(LibCall::FloorF64)
        } else if str_eq(s, "TruncF32") {
            Ok(LibCall::TruncF32)
        } else if str_eq(s, "TruncF64") {
            Ok(LibCall::TruncF64)
        } else if str_eq(s, "NearestF32") {
            Ok(LibCall::NearestF32)
        } else if str_eq(s, "NearestF64") {
            Ok(LibCall::NearestF64)
        } else {
            Err(())
        }
    }
}

} // verus!
