//! Tests for affinity derivation, merging and display.

use regaffinity::{
    AbiParam, Affinity, ArgumentLoc, ConstraintKind, OperandConstraint, RegClassData, RegInfo,
    TargetIsa,
};

const GPR: u8 = 0;
const FPR: u8 = 1;
const GPR8: u8 = 2;

/// A small synthetic hierarchy: two disjoint top classes, one of which has
/// a proper subclass.
fn make_info() -> RegInfo {
    RegInfo {
        classes: vec![
            RegClassData {
                name: "GPR".to_string(),
                subclasses: vec![GPR, GPR8],
            },
            RegClassData {
                name: "FPR".to_string(),
                subclasses: vec![FPR],
            },
            RegClassData {
                name: "GPR8".to_string(),
                subclasses: vec![GPR8],
            },
        ],
    }
}

fn reg(class: u8) -> OperandConstraint {
    OperandConstraint {
        kind: ConstraintKind::Reg,
        regclass: class,
    }
}

fn stack() -> OperandConstraint {
    OperandConstraint {
        kind: ConstraintKind::Stack,
        regclass: 0,
    }
}

#[test]
fn synthetic_hierarchy_is_valid() {
    assert!(make_info().is_valid());
}

#[test]
fn malformed_hierarchies_are_refused() {
    // A subclass listed with a smaller index than its superclass.
    let bad_order = RegInfo {
        classes: vec![
            RegClassData {
                name: "A".to_string(),
                subclasses: vec![0],
            },
            RegClassData {
                name: "B".to_string(),
                subclasses: vec![1, 0],
            },
        ],
    };
    assert!(!bad_order.is_valid());
    // A class that does not list itself.
    let no_reflex = RegInfo {
        classes: vec![RegClassData {
            name: "A".to_string(),
            subclasses: vec![],
        }],
    };
    assert!(!no_reflex.is_valid());
    // A subclass index out of range.
    let out_of_range = RegInfo {
        classes: vec![RegClassData {
            name: "A".to_string(),
            subclasses: vec![0, 7],
        }],
    };
    assert!(!out_of_range.is_valid());
}

#[test]
fn from_constraint_follows_the_kind() {
    assert!(Affinity::new(&stack()).is_stack());
    assert_eq!(Affinity::new(&reg(GPR)), Affinity::Reg(GPR));
    assert_eq!(Affinity::new(&reg(FPR)), Affinity::Reg(FPR));
    assert!(!Affinity::new(&stack()).is_reg());
    assert!(!Affinity::new(&reg(GPR)).is_none());
}

#[test]
fn default_is_unassigned() {
    let a = Affinity::default();
    assert!(a.is_none());
    assert!(!a.is_reg());
    assert!(!a.is_stack());
}

#[test]
fn merge_into_unassigned_adopts_the_constraint() {
    let info = make_info();
    let mut a = Affinity::default();
    a.merge(&reg(FPR), &info);
    assert_eq!(a, Affinity::Reg(FPR));
    let mut b = Affinity::default();
    b.merge(&stack(), &info);
    assert_eq!(b, Affinity::Stack);
}

#[test]
fn merge_into_stack_is_absorbing() {
    let info = make_info();
    let mut a = Affinity::Stack;
    a.merge(&reg(GPR), &info);
    assert_eq!(a, Affinity::Stack);
    a.merge(&stack(), &info);
    assert_eq!(a, Affinity::Stack);
}

#[test]
fn merge_is_idempotent() {
    let info = make_info();
    let mut once = Affinity::default();
    once.merge(&reg(GPR8), &info);
    let mut twice = Affinity::default();
    twice.merge(&reg(GPR8), &info);
    twice.merge(&reg(GPR8), &info);
    assert_eq!(once, twice);
    assert_eq!(twice, Affinity::Reg(GPR8));
}

#[test]
fn merge_narrows_to_the_subclass() {
    let info = make_info();
    let mut a = Affinity::Reg(GPR);
    a.merge(&reg(GPR8), &info);
    assert_eq!(a, Affinity::Reg(GPR8));
    // The narrower preference already satisfies the wider constraint.
    let mut b = Affinity::Reg(GPR8);
    b.merge(&reg(GPR), &info);
    assert_eq!(b, Affinity::Reg(GPR8));
}

#[test]
fn merge_order_does_not_matter() {
    let info = make_info();
    let mut ab = Affinity::default();
    ab.merge(&reg(GPR), &info);
    ab.merge(&reg(GPR8), &info);
    let mut ba = Affinity::default();
    ba.merge(&reg(GPR8), &info);
    ba.merge(&reg(GPR), &info);
    assert_eq!(ab, ba);
}

#[test]
fn merge_ignores_a_disjoint_constraint() {
    let info = make_info();
    let mut a = Affinity::Reg(GPR);
    a.merge(&reg(FPR), &info);
    assert_eq!(a, Affinity::Reg(GPR));
    let mut b = Affinity::Reg(FPR);
    b.merge(&reg(GPR8), &info);
    assert_eq!(b, Affinity::Reg(FPR));
}

#[test]
fn merge_keeps_a_register_preference_over_stack() {
    let info = make_info();
    // A register preference stands even when a stack constraint follows.
    let mut a = Affinity::default();
    a.merge(&reg(GPR), &info);
    a.merge(&reg(GPR8), &info);
    assert_eq!(a, Affinity::Reg(GPR8));
    a.merge(&stack(), &info);
    assert_eq!(a, Affinity::Reg(GPR8));
    // A stack preference seen first stands against later registers.
    let mut b = Affinity::default();
    b.merge(&stack(), &info);
    assert_eq!(b, Affinity::Stack);
    b.merge(&reg(GPR), &info);
    assert_eq!(b, Affinity::Stack);
}

#[test]
fn abi_parameters_map_to_affinities() {
    let isa = TargetIsa {
        abi_classes: vec![GPR, FPR],
    };
    let unassigned = AbiParam {
        value_type: 0,
        location: ArgumentLoc::Unassigned,
    };
    assert!(Affinity::abi(&unassigned, &isa).is_none());
    let in_reg = AbiParam {
        value_type: 1,
        location: ArgumentLoc::Reg(4),
    };
    assert_eq!(Affinity::abi(&in_reg, &isa), Affinity::Reg(FPR));
    let on_stack = AbiParam {
        value_type: 0,
        location: ArgumentLoc::Stack(-16),
    };
    assert!(Affinity::abi(&on_stack, &isa).is_stack());
}

#[test]
fn display_renders_names_and_indices() {
    let info = make_info();
    assert_eq!(Affinity::default().display(None).text(), "none");
    assert_eq!(Affinity::Stack.display(None).text(), "stack");
    assert_eq!(Affinity::Reg(GPR8).display(None).text(), "2");
    assert_eq!(Affinity::Reg(GPR).display(Some(&info)).text(), "GPR");
    assert_eq!(Affinity::Reg(GPR8).display(Some(&info)).text(), "GPR8");
    assert_eq!(Affinity::Stack.display(Some(&info)).text(), "stack");
}

#[test]
fn intersection_finds_the_largest_common_subclass() {
    let info = make_info();
    assert_eq!(info.intersect(GPR, GPR8), Some(GPR8));
    assert_eq!(info.intersect(GPR8, GPR), Some(GPR8));
    assert_eq!(info.intersect(GPR, GPR), Some(GPR));
    assert_eq!(info.intersect(GPR, FPR), None);
    assert!(info.has_subclass(GPR, GPR8));
    assert!(!info.has_subclass(GPR8, GPR));
}
