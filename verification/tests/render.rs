use range_resolver::ast::{qconstraint, qrange, unconstrained, Constraint};

/// A range renders as `start..end`, a missing bound left empty.
#[test]
fn range_text() {
    assert_eq!(qrange(Some(0), Some(3000)).render(), "0..3000");
    assert_eq!(qrange(None, Some(7)).render(), "..7");
    assert_eq!(qrange(Some(-5), None).render(), "-5..");
    assert_eq!(qrange(None, None).render(), "..");
    assert_eq!(
        qrange(Some(i64::MIN), Some(i64::MAX)).render(),
        "-9223372036854775808..9223372036854775807"
    );
}

/// A constraint renders its quoted name, then its ranges.
#[test]
fn constraint_text() {
    assert_eq!(
        qconstraint(Some("HeightMm"), Some(0), Some(3000)).render(),
        "\"HeightMm\" (0..3000)"
    );
    assert_eq!(qconstraint(None, Some(2), Some(2999)).render(), "(2..2999)");
    assert_eq!(unconstrained().render(), "\"unconstrained\" (..)");
    let multi = Constraint {
        name: None,
        ranges: vec![qrange(Some(0), Some(1)), qrange(Some(2), Some(3))],
    };
    assert_eq!(multi.render(), "[0..1, 2..3, \u{8}\u{8}]");
}
