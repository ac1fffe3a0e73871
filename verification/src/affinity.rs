//! The per-value allocation preference and the constraint-merging engine.
//!
//! A value's affinity starts as `Affinity::Unassigned` and is narrowed by folding
//! the operand constraints of every instruction that defines or uses the
//! value into it, one at a time and in any order. The final affinity is a
//! hint for the register allocator: it never blocks an allocation, it only
//! steers it.

use vstd::prelude::*;
use crate::abi::{AbiParam, ArgumentLoc, TargetIsa};
use crate::regclass::{
    RegClassIndex, RegInfo, glb, has_common, is_common, is_subclass, lemma_glb_is_least,
    valid_class, wf,
};
use crate::text::{dec_chars, push_dec_u32, push_str_chars};

verus! {

/// What one instruction operand requires of the value it carries.
#[derive(Clone, Copy, Debug, PartialEq, Eq, Structural)]
pub enum ConstraintKind {
    /// The operand must be in a fixed register drawn from the class.
    FixedReg,
    /// As `FixedReg`, and tied to another operand.
    FixedTied,
    /// The operand must be in a register of the class.
    Reg,
    /// As `Reg`, and tied to another operand.
    Tied,
    /// The operand must be in a stack slot.
    Stack,
}

/// A single operand constraint: a kind, and the register class it names.
/// Only the distinction "`Stack` against anything register-like" matters to
/// the affinity engine; every non-`Stack` kind wants a register of
/// `regclass`.
#[derive(Clone, Copy, Debug, PartialEq, Eq, Structural)]
pub struct OperandConstraint {
    /// What the operand requires.
    pub kind: ConstraintKind,
    /// The register class the requirement names.
    pub regclass: RegClassIndex,
}

/// A well-formed constraint names a class that the table has.
pub open spec fn valid_constraint(c: OperandConstraint, info: RegInfo) -> bool {
    valid_class(info, c.regclass)
}

/// Preferred allocation for an SSA value.
#[derive(Clone, Copy, Debug, PartialEq, Eq, Structural)]
pub enum Affinity {
    /// No affinity: the value is not defined or used by any real
    /// instruction, so no preference exists yet.
    Unassigned,
    /// The value should be placed in a spill slot on the stack.
    Stack,
    /// The value prefers a register from the given register class.
    Reg(RegClassIndex),
}

/// A well-formed affinity names a class that the table has, if it names one
/// at all.
pub open spec fn valid_affinity(a: Affinity, info: RegInfo) -> bool {
    a matches Affinity::Reg(c) ==> valid_class(info, c)
}

/// The affinity that matches an ABI parameter: none while the parameter is
/// unplaced, the class of the parameter's value type when it is
/// register-resident, and `Stack` when it lives on the stack.
pub open spec fn spec_abi(arg: AbiParam, isa: TargetIsa) -> Affinity {
    match arg.location {
        ArgumentLoc::Unassigned => Affinity::Unassigned,
        ArgumentLoc::Reg(_) => Affinity::Reg(isa.abi_classes@[arg.value_type as int]),
        ArgumentLoc::Stack(_) => Affinity::Stack,
    }
}

/// The affinity that satisfies a single constraint: `Stack` for a stack
/// constraint, otherwise a register of the constraint's class. Never
/// `Affinity::Unassigned`.
pub open spec fn spec_from_constraint(c: OperandConstraint) -> Affinity {
    if c.kind is Stack {
        Affinity::Stack
    } else {
        Affinity::Reg(c.regclass)
    }
}

/// What merging a constraint into an affinity yields:
/// - into `Unassigned`: the constraint's own affinity;
/// - into `Stack`: `Stack` (absorbing);
/// - into `Reg(rc)`: unchanged for a stack constraint or one whose class
///   already contains `rc`; the largest common subclass when the classes
///   overlap; unchanged when they are disjoint.
pub open spec fn spec_merge(a: Affinity, c: OperandConstraint, info: RegInfo) -> Affinity {
    match a {
        Affinity::Unassigned => spec_from_constraint(c),
        Affinity::Stack => Affinity::Stack,
        Affinity::Reg(rc) => {
            if c.kind is Stack {
                Affinity::Reg(rc)
            } else if is_subclass(info, rc, c.regclass) {
                Affinity::Reg(rc)
            } else if has_common(info, c.regclass, rc) {
                Affinity::Reg(glb(info, c.regclass, rc))
            } else {
                Affinity::Reg(rc)
            }
        },
    }
}

impl Default for Affinity {
    /// A fresh value has no affinity.
    fn default() -> (r: Self)
        ensures
            r == Affinity::Unassigned,
    {
        Affinity::Unassigned
    }
}

impl Affinity {
    /// Create an affinity that satisfies a single constraint.
    ///
    /// This never creates an `Affinity::Unassigned`; use the `Default`
    /// implementation for that. The result is `Stack` exactly when the
    /// constraint is a stack constraint, and otherwise prefers the
    /// constraint's own class.
    pub fn new(constraint: &OperandConstraint) -> (r: Affinity)
        ensures
            r == spec_from_constraint(*constraint),
            r is Stack <==> constraint.kind is Stack,
            !(constraint.kind is Stack) ==> r == Affinity::Reg(constraint.regclass),
            !(r is Unassigned),
    {
        if constraint.kind == ConstraintKind::Stack {
            Affinity::Stack
        } else {
            Affinity::Reg(constraint.regclass)
        }
    }

    /// Create an affinity that matches an ABI parameter for a target: no
    /// affinity while the parameter is unplaced, the class that would hold
    /// the parameter's type when it is register-resident, and `Stack` when
    /// it lives on the stack.
    pub fn abi(arg: &AbiParam, isa: &TargetIsa) -> (r: Affinity)
        requires
            arg.location matches ArgumentLoc::Reg(_) ==> (arg.value_type as int)
                < isa.abi_classes@.len(),
        ensures
            r == spec_abi(*arg, *isa),
    {
        match arg.location {
            ArgumentLoc::Unassigned => Affinity::Unassigned,
            ArgumentLoc::Reg(_) => Affinity::Reg(isa.regclass_for_abi_type(arg.value_type)),
            ArgumentLoc::Stack(_) => Affinity::Stack,
        }
    }

    /// Is this the `Unassigned` affinity?
    pub fn is_none(self) -> (r: bool)
        ensures
            r == (self matches Affinity::Unassigned),
    {
        match self {
            Affinity::Unassigned => true,
            _ => false,
        }
    }

    /// Is this the `Reg` affinity?
    pub fn is_reg(self) -> (r: bool)
        ensures
            r == (self matches Affinity::Reg(_)),
    {
        match self {
            Affinity::Reg(_) => true,
            _ => false,
        }
    }

    /// Is this the `Stack` affinity?
    pub fn is_stack(self) -> (r: bool)
        ensures
            r == (self matches Affinity::Stack),
    {
        match self {
            Affinity::Stack => true,
            _ => false,
        }
    }

    /// Merge an operand constraint into this affinity, narrowing it in
    /// place.
    ///
    /// This never fails: a constraint that cannot be reconciled with the
    /// current preference is ignored, and the previous preference stands.
    /// It does not guarantee that the register allocator will pick a
    /// register that satisfies the constraint.
    pub fn merge(&mut self, constraint: &OperandConstraint, reg_info: &RegInfo)
        requires
            wf(*reg_info),
            valid_constraint(*constraint, *reg_info),
            valid_affinity(*old(self), *reg_info),
        ensures
            *final(self) == spec_merge(*old(self), *constraint, *reg_info),
            valid_affinity(*final(self), *reg_info),
    {
        match *self {
            Affinity::Unassigned => {
                *self = Affinity::new(constraint);
            },
            Affinity::Reg(rc) => {
                // If the preferred class is already a subclass of the
                // constraint's class, the current, more specific, preference
                // satisfies the new constraint as it stands.
                if constraint.kind != ConstraintKind::Stack
                    && !reg_info.has_subclass(constraint.regclass, rc) {
                    // If the two classes do not overlap, `intersect` returns
                    // `None` and the previous affinity is kept.
                    if let Option::Some(subclass) = reg_info.intersect(constraint.regclass, rc) {
                        // The constraint shrinks the preferred class.
                        *self = Affinity::Reg(subclass);
                    }
                }
            },
            Affinity::Stack => {},
        }
    }

    /// Return an object that can render this affinity, using the register
    /// class table of the target when one is supplied.
    pub fn display<'a>(self, regs: Option<&'a RegInfo>) -> (r: DisplayAffinity<'a>)
        ensures
            r.0 == self,
            r.1 == regs,
    {
        DisplayAffinity(self, regs)
    }
}

/// An affinity paired with the register-class table needed to render it;
/// the table may be absent, in which case a register class renders as its
/// bare index.
pub struct DisplayAffinity<'a>(pub Affinity, pub Option<&'a RegInfo>);

impl<'a> DisplayAffinity<'a> {
    /// The exact text this affinity renders as: `none`, `stack`, or, for a
    /// register preference, the class's name when a table is at hand and
    /// the bare decimal class index when not.
    pub open spec fn spec_text(self) -> Seq<char> {
        match self.0 {
            Affinity::Unassigned => "none"@,
            Affinity::Stack => "stack"@,
            Affinity::Reg(rc) => match self.1 {
                Some(info) => info.classes@[rc as int].name@,
                None => dec_chars(rc as nat),
            },
        }
    }

    /// A class index rendered through a table must be one the table has;
    /// any affinity renders without a table, and `none` and `stack` render
    /// with or without one.
    pub open spec fn wf_display(self) -> bool {
        self.0 matches Affinity::Reg(rc) ==> (self.1 matches Some(info) ==> valid_class(
            *info,
            rc,
        ))
    }

    /// Render the affinity.
    pub fn text(&self) -> (r: String)
        requires
            self.wf_display(),
        ensures
            r@ == self.spec_text(),
    {
        match self.0 {
            Affinity::Unassigned => {
                let mut s = String::new();
                push_str_chars(&mut s, "none");
                proof {
                    assert(s@ =~= self.spec_text());
                }
                s
            },
            Affinity::Stack => {
                let mut s = String::new();
                push_str_chars(&mut s, "stack");
                proof {
                    assert(s@ =~= self.spec_text());
                }
                s
            },
            Affinity::Reg(rc) => match self.1 {
                Some(info) => info.classes[rc as usize].name.clone(),
                None => {
                    let mut s = String::new();
                    push_dec_u32(&mut s, rc as u32);
                    proof {
                        assert(s@ =~= self.spec_text());
                    }
                    s
                },
            },
        }
    }
}

/// Absorption: merging any constraint into `Stack` yields `Stack`.
pub proof fn lemma_merge_stack_absorbing(c: OperandConstraint, info: RegInfo)
    ensures
        spec_merge(Affinity::Stack, c, info) == Affinity::Stack,
{
}

/// Identity: merging any constraint into `Unassigned` adopts the
/// constraint's own affinity.
pub proof fn lemma_merge_unassigned_identity(c: OperandConstraint, info: RegInfo)
    ensures
        spec_merge(Affinity::Unassigned, c, info) == spec_from_constraint(c),
{
}

/// Idempotence: merging the same constraint into an affinity twice yields
/// the same result as merging it once.
pub proof fn lemma_merge_idempotent(a: Affinity, c: OperandConstraint, info: RegInfo)
    requires
        wf(info),
        valid_constraint(c, info),
        valid_affinity(a, info),
    ensures
        spec_merge(spec_merge(a, c, info), c, info) == spec_merge(a, c, info),
{
    match a {
        Affinity::Unassigned => {
            if !(c.kind is Stack) {
                // The adopted class satisfies the constraint on its own:
                // every class is a subclass of itself.
                assert(is_subclass(info, c.regclass, c.regclass));
            }
        },
        Affinity::Stack => {},
        Affinity::Reg(rc) => {
            if !(c.kind is Stack) && !is_subclass(info, rc, c.regclass)
                && has_common(info, c.regclass, rc) {
                // The narrowed class is a common subclass, so it already
                // satisfies the constraint and the second merge keeps it.
                lemma_glb_is_least(info, c.regclass, rc);
                assert(is_subclass(info, glb(info, c.regclass, rc), c.regclass));
            }
        },
    }
}

/// Narrowing: merging a non-stack constraint that is not disjoint from the
/// current preference `Reg(x)` yields a register preference whose class is a
/// subclass of `x` (possibly `x` itself).
pub proof fn lemma_merge_narrows(x: RegClassIndex, c: OperandConstraint, info: RegInfo)
    requires
        wf(info),
        valid_constraint(c, info),
        valid_class(info, x),
        !(c.kind is Stack),
        is_subclass(info, x, c.regclass) || has_common(info, c.regclass, x),
    ensures
        spec_merge(Affinity::Reg(x), c, info) matches Affinity::Reg(y) && is_subclass(info, y, x),
{
    if is_subclass(info, x, c.regclass) {
        assert(is_subclass(info, x, x));
    } else {
        lemma_glb_is_least(info, c.regclass, x);
    }
}

/// Disjoint-safety: merging a constraint whose class shares no subclass
/// with the current preference `Reg(x)` leaves the affinity unchanged.
pub proof fn lemma_merge_disjoint(x: RegClassIndex, c: OperandConstraint, info: RegInfo)
    requires
        wf(info),
        valid_constraint(c, info),
        valid_class(info, x),
        !(c.kind is Stack),
        !has_common(info, c.regclass, x),
    ensures
        spec_merge(Affinity::Reg(x), c, info) == Affinity::Reg(x),
{
    // Disjointness already rules out the subclass case: `x` itself would be
    // a common subclass.
    if is_subclass(info, x, c.regclass) {
        assert(is_subclass(info, x, x));
        assert(is_common(info, x, c.regclass, x));
        assert(false);
    }
}

/// Order-independence: folding two overlapping non-stack constraints into a
/// fresh affinity yields the same register preference in either order.
pub proof fn lemma_merge_order_independent(c1: OperandConstraint, c2: OperandConstraint, info: RegInfo)
    requires
        wf(info),
        valid_constraint(c1, info),
        valid_constraint(c2, info),
        !(c1.kind is Stack),
        !(c2.kind is Stack),
        has_common(info, c1.regclass, c2.regclass),
    ensures
        spec_merge(spec_merge(Affinity::Unassigned, c1, info), c2, info)
            == spec_merge(spec_merge(Affinity::Unassigned, c2, info), c1, info),
{
    let a = c1.regclass;
    let b = c2.regclass;
    // Overlap is symmetric in the two classes.
    let w = choose|x: RegClassIndex| is_common(info, x, a, b);
    assert(is_common(info, w, b, a));
    lemma_glb_is_least(info, a, b);
    lemma_glb_is_least(info, b, a);
    let gab = glb(info, a, b);
    let gba = glb(info, b, a);
    // The two intersections name the least element of the same set of
    // common subclasses.
    assert(is_common(info, gab, b, a));
    assert(is_common(info, gba, a, b));
    assert(gab == gba);
    if is_subclass(info, a, b) && is_subclass(info, b, a) {
        // Mutual containment: indices make the subclass order
        // antisymmetric.
        assert(a == b);
    } else if is_subclass(info, a, b) {
        // One order keeps `a`; the other narrows `b` to the intersection,
        // which is `a` itself: `a` is common, and every common subclass is
        // a subclass of `a`, hence not below it.
        assert(is_subclass(info, a, a));
        assert(is_common(info, a, a, b));
        assert(is_subclass(info, gab, a));
        assert(gab == a);
    } else if is_subclass(info, b, a) {
        assert(is_subclass(info, b, b));
        assert(is_common(info, b, a, b));
        assert(is_subclass(info, gba, b));
        assert(gba == b);
    }
}

} // verus!
