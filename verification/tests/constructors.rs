use range_resolver::ast::{
    constraint_eq, qconstraint, qrange, qval, qvar, unconstrained, Constraint, Expr, Range,
};

/// `qval` builds a literal constraint holding the single value.
#[test]
fn qval_is_a_point_constraint() {
    match qval(25) {
        Expr::Value(c) => {
            assert_eq!(c.name, None);
            assert_eq!(c.ranges, vec![Range { start: Some(25), end: Some(25) }]);
        }
        other => panic!("expected a literal value, got {:?}", other),
    }
}

/// `qvar` builds a variable reference.
#[test]
fn qvar_is_a_variable_reference() {
    match qvar("height") {
        Expr::Variable(id) => assert_eq!(id, "height"),
        other => panic!("expected a variable reference, got {:?}", other),
    }
}

/// `qrange` keeps its bounds; a missing bound stays missing.
#[test]
fn qrange_keeps_bounds() {
    assert_eq!(qrange(Some(0), Some(3000)), Range { start: Some(0), end: Some(3000) });
    assert_eq!(qrange(None, Some(7)), Range { start: None, end: Some(7) });
    assert_eq!(qrange(None, None), Range { start: None, end: None });
}

/// `qconstraint` builds a single-range constraint with an optional name.
#[test]
fn qconstraint_builds_one_range() {
    let c = qconstraint(Some("HeightMm"), Some(0), Some(3000));
    assert_eq!(c.name, Some("HeightMm".to_string()));
    assert_eq!(c.ranges, vec![qrange(Some(0), Some(3000))]);
    let anon = qconstraint(None, None, Some(9));
    assert_eq!(anon.name, None);
    assert_eq!(anon.ranges, vec![qrange(None, Some(9))]);
}

/// `unconstrained` is named and has no ranges.
#[test]
fn unconstrained_has_no_ranges() {
    let c = unconstrained();
    assert_eq!(c.name, Some("unconstrained".to_string()));
    assert!(c.ranges.is_empty());
}

/// Structural constraint equality: name and ranges, in order.
#[test]
fn constraint_eq_is_structural() {
    let a = qconstraint(Some("A"), Some(0), Some(10));
    let same = qconstraint(Some("A"), Some(0), Some(10));
    let renamed = qconstraint(Some("B"), Some(0), Some(10));
    let shifted = qconstraint(Some("A"), Some(0), Some(11));
    assert!(constraint_eq(&a, &same));
    assert!(!constraint_eq(&a, &renamed));
    assert!(!constraint_eq(&a, &shifted));
    let two = Constraint {
        name: None,
        ranges: vec![qrange(Some(0), Some(1)), qrange(Some(2), Some(3))],
    };
    let swapped = Constraint {
        name: None,
        ranges: vec![qrange(Some(2), Some(3)), qrange(Some(0), Some(1))],
    };
    assert!(!constraint_eq(&two, &swapped));
}
