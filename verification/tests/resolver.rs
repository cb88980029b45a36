use range_resolver::ast::{
    qadd, qassert, qassign, qcall, qconstraint, qdiv, qfn, qrange, qval, qvar, unconstrained,
    Constraint, Expr, Range,
};
use range_resolver::diag::{ResolveError, ResolveFailure};
use range_resolver::resolver::{resolve_exprs, resolve_fn, resolve_assert, resolve_expr};
use range_resolver::scope::Scope;

fn anon(start: Option<i64>, end: Option<i64>) -> Constraint {
    qconstraint(None, start, end)
}

/// The embedded end-to-end scenario: an unconstrained `input`, a `toInches`
/// declaration with a millimetre parameter and an inch result, and a four
/// statement program over them.
#[test]
fn resolve() {
    let height_mm = qconstraint(Some("HeightMm"), Some(0), Some(3000));
    let height_in = qconstraint(Some("HeightIn"), Some(0), Some(182));

    let input = qfn("input", vec![], unconstrained(), vec![]);
    let to_inches = qfn(
        "toInches",
        vec![("z".to_string(), height_mm)],
        height_in,
        vec![qdiv(qvar("z"), qval(25))],
    );

    let functions = vec![input, to_inches];
    let exprs = vec![
        qassign("height", qcall("input", vec![])),
        qassert("height", qrange(Some(0), Some(2997))),
        qassign("height", qadd(qvar("height"), qval(2))),
        qassign("height_in", qcall("toInches", vec![qvar("height")])),
    ];

    let scope = resolve_exprs(exprs, functions).expect("the scenario resolves");

    // `height = input()` bound the unconstrained result; the assertion
    // replaced it with (0..2997); `height + 2` shifted it to (2..2999).
    assert_eq!(scope.get("height"), Some(&anon(Some(2), Some(2999))));
    // `toInches(height)` passed the containment check ((0..3000) covers
    // (2..2999)) and bound the declared result, untouched by the body.
    assert_eq!(
        scope.get("height_in"),
        Some(&qconstraint(Some("HeightIn"), Some(0), Some(182)))
    );
}

/// Containment acceptance: (0..3000) covers (2..2999); the declared result
/// comes back verbatim even though the declared body is nonsense.
#[test]
fn containment_accepts_covered_argument() {
    let f = qfn(
        "f",
        vec![("p".to_string(), anon(Some(0), Some(3000)))],
        qconstraint(Some("R"), Some(7), Some(9)),
        vec![qval(1)],
    );
    let exprs = vec![
        qassign("x", Expr::Value(anon(Some(2), Some(2999)))),
        qassign("y", qcall("f", vec![qvar("x")])),
    ];
    let scope = resolve_exprs(exprs, vec![f]).expect("covered argument is accepted");
    assert_eq!(scope.get("y"), Some(&qconstraint(Some("R"), Some(7), Some(9))));
}

/// Containment rejection: (0..3000) does not cover (0..3500).
#[test]
fn containment_rejects_uncovered_argument() {
    let f = qfn(
        "f",
        vec![("p".to_string(), anon(Some(0), Some(3000)))],
        unconstrained(),
        vec![],
    );
    let exprs = vec![
        qassign("x", Expr::Value(anon(Some(0), Some(3500)))),
        qassign("y", qcall("f", vec![qvar("x")])),
    ];
    let failure = resolve_exprs(exprs, vec![f]).expect_err("uncovered argument is rejected");
    assert_eq!(failure.statement, 1);
    match failure.error {
        ResolveError::ArgumentConstraintViolation { function, index, argument, declared } => {
            assert_eq!(function, "f");
            assert_eq!(index, 0);
            assert_eq!(argument, anon(Some(0), Some(3500)));
            assert_eq!(declared, anon(Some(0), Some(3000)));
        }
        other => panic!("expected a constraint violation, got {:?}", other),
    }
}

/// Arity check: calling a zero-parameter function with one argument.
#[test]
fn arity_mismatch_is_reported() {
    let f = qfn("f", vec![], unconstrained(), vec![]);
    let exprs = vec![qassign("y", qcall("f", vec![qval(1)]))];
    let failure = resolve_exprs(exprs, vec![f]).expect_err("wrong arity is rejected");
    assert_eq!(
        failure,
        ResolveFailure {
            statement: 0,
            error: ResolveError::ArgumentCountMismatch {
                function: "f".to_string(),
                expected: 0,
                actual: 1,
            },
        }
    );
}

/// Unconstrained absorption: asserting a range on a variable with an empty
/// range set replaces its knowledge with exactly that range.
#[test]
fn narrowing_unconstrained_adopts_assert_range() {
    let exprs = vec![
        qassign("x", Expr::Value(unconstrained())),
        qassert("x", qrange(Some(5), Some(10))),
    ];
    let scope = resolve_exprs(exprs, vec![]).expect("narrowing succeeds");
    assert_eq!(scope.get("x"), Some(&anon(Some(5), Some(10))));
}

/// A surviving range is clamped to the asserted bounds; a disjoint range is
/// discarded.
#[test]
fn narrowing_clamps_and_discards() {
    let c = Constraint {
        name: None,
        ranges: vec![qrange(Some(0), Some(50)), qrange(Some(200), Some(300))],
    };
    let exprs = vec![
        qassign("x", Expr::Value(c)),
        qassert("x", qrange(Some(10), Some(100))),
    ];
    let scope = resolve_exprs(exprs, vec![]).expect("narrowing succeeds");
    assert_eq!(scope.get("x"), Some(&anon(Some(10), Some(50))));
}

/// When no range survives, the asserted range replaces the constraint.
#[test]
fn narrowing_with_no_survivor_adopts_assert_range() {
    let exprs = vec![
        qassign("x", Expr::Value(anon(Some(0), Some(10)))),
        qassert("x", qrange(Some(20), Some(30))),
    ];
    let scope = resolve_exprs(exprs, vec![]).expect("narrowing succeeds");
    assert_eq!(scope.get("x"), Some(&anon(Some(20), Some(30))));
}

/// A variable bound that is missing adopts the assertion's bound on that
/// side.
#[test]
fn narrowing_adopts_bounds_on_unbounded_sides() {
    let exprs = vec![
        qassign("x", Expr::Value(anon(None, Some(10)))),
        qassert("x", qrange(Some(0), Some(2997))),
    ];
    let scope = resolve_exprs(exprs, vec![]).expect("narrowing succeeds");
    assert_eq!(scope.get("x"), Some(&anon(Some(0), Some(10))));
}

/// An assertion that is unbounded above keeps a bounded range intact:
/// unbounded sides are treated as infinities.
#[test]
fn narrowing_with_unbounded_assert_side_keeps_range() {
    let exprs = vec![
        qassign("x", Expr::Value(anon(Some(5), Some(10)))),
        qassert("x", qrange(Some(0), None)),
    ];
    let scope = resolve_exprs(exprs, vec![]).expect("narrowing succeeds");
    assert_eq!(scope.get("x"), Some(&anon(Some(5), Some(10))));
}

/// Addition takes the full cross product of the operands' range sets, and
/// swapping the operands permutes but never changes the ranges.
#[test]
fn addition_cross_product_is_symmetric() {
    let a = Constraint {
        name: None,
        ranges: vec![qrange(Some(0), Some(1)), qrange(Some(10), Some(11))],
    };
    let b = Constraint {
        name: None,
        ranges: vec![qrange(Some(100), Some(101)), qrange(Some(1000), Some(1001))],
    };
    let scope = Scope::new();
    let ab = resolve_expr(
        &qadd(Expr::Value(a.clone()), Expr::Value(b.clone())),
        &scope,
        &[],
    )
    .expect("addition resolves");
    let ba = resolve_expr(&qadd(Expr::Value(b), Expr::Value(a)), &scope, &[])
        .expect("addition resolves");
    assert_eq!(
        ab.ranges,
        vec![
            qrange(Some(100), Some(102)),
            qrange(Some(1000), Some(1002)),
            qrange(Some(110), Some(112)),
            qrange(Some(1010), Some(1012)),
        ]
    );
    let mut ab_sorted: Vec<Range> = ab.ranges.clone();
    let mut ba_sorted: Vec<Range> = ba.ranges.clone();
    ab_sorted.sort_by_key(|r| (r.start, r.end));
    ba_sorted.sort_by_key(|r| (r.start, r.end));
    assert_eq!(ab_sorted, ba_sorted);
    assert_eq!(ab.name, None);
    assert_eq!(ba.name, None);
}

/// An unbounded operand side makes the corresponding sum side unbounded.
#[test]
fn addition_keeps_unbounded_sides() {
    let scope = Scope::new();
    let sum = resolve_expr(
        &qadd(
            Expr::Value(anon(None, Some(5))),
            Expr::Value(anon(Some(1), Some(2))),
        ),
        &scope,
        &[],
    )
    .expect("addition resolves");
    assert_eq!(sum, anon(None, Some(7)));
}

/// Subtraction, multiplication and division are not modeled: they yield
/// the unconstrained value whatever the operands are.
#[test]
fn unmodeled_arithmetic_is_unconstrained() {
    let scope = Scope::new();
    let quotient = resolve_expr(
        &qdiv(Expr::Value(anon(Some(8), Some(8))), Expr::Value(anon(Some(2), Some(2)))),
        &scope,
        &[],
    )
    .expect("division resolves");
    assert_eq!(quotient, unconstrained());
}

/// A reference to a name absent from scope is fatal.
#[test]
fn undefined_variable_is_reported() {
    let exprs = vec![qassign("y", qvar("missing"))];
    let failure = resolve_exprs(exprs, vec![]).expect_err("unknown variable is rejected");
    assert_eq!(
        failure,
        ResolveFailure {
            statement: 0,
            error: ResolveError::UndefinedVariable("missing".to_string()),
        }
    );
}

/// A call to a name absent from the function table is fatal.
#[test]
fn undefined_function_is_reported() {
    let exprs = vec![qassign("y", qcall("missing", vec![]))];
    let failure = resolve_exprs(exprs, vec![]).expect_err("unknown function is rejected");
    assert_eq!(
        failure,
        ResolveFailure {
            statement: 0,
            error: ResolveError::UndefinedFunction("missing".to_string()),
        }
    );
}

/// Assignment is a statement-only form: nested, it is fatal.
#[test]
fn nested_assignment_is_reported() {
    let exprs = vec![qassign("y", qadd(qassign("z", qval(1)), qval(2)))];
    let failure = resolve_exprs(exprs, vec![]).expect_err("nested assignment is rejected");
    assert_eq!(
        failure,
        ResolveFailure { statement: 0, error: ResolveError::NestedAssignmentNotAllowed }
    );
}

/// A bare expression statement is evaluated for its checks alone: its
/// value is discarded but its failure is fatal.
#[test]
fn bare_statement_checks_but_binds_nothing() {
    let f = qfn(
        "f",
        vec![("p".to_string(), anon(Some(0), Some(10)))],
        unconstrained(),
        vec![],
    );
    let ok_exprs = vec![qcall("f", vec![qval(3)])];
    let scope = resolve_exprs(ok_exprs, vec![f]).expect("a passing bare call resolves");
    assert_eq!(scope.get("f"), None);

    let g = qfn(
        "g",
        vec![("p".to_string(), anon(Some(0), Some(10)))],
        unconstrained(),
        vec![],
    );
    let bad_exprs = vec![qcall("g", vec![qval(30)])];
    let failure = resolve_exprs(bad_exprs, vec![g]).expect_err("a failing bare call aborts");
    assert_eq!(failure.statement, 0);
}

/// Self-reference on the right-hand side reads the prior value.
#[test]
fn assignment_reads_prior_value() {
    let exprs = vec![
        qassign("x", Expr::Value(anon(Some(1), Some(2)))),
        qassign("x", qadd(qvar("x"), qvar("x"))),
    ];
    let scope = resolve_exprs(exprs, vec![]).expect("self reference resolves");
    assert_eq!(scope.get("x"), Some(&anon(Some(2), Some(4))));
}

/// `resolve_fn` and `resolve_assert` work against an explicit scope.
#[test]
fn direct_calls_against_a_scope() {
    let mut scope = Scope::new();
    scope.set("x".to_string(), anon(Some(2), Some(2999)));
    let f = qfn(
        "f",
        vec![("p".to_string(), anon(Some(0), Some(3000)))],
        qconstraint(Some("R"), Some(1), Some(2)),
        vec![],
    );
    let result = resolve_fn("f", &[qvar("x")], &scope, &[f]).expect("call passes");
    assert_eq!(result, qconstraint(Some("R"), Some(1), Some(2)));

    let narrowed = resolve_assert(&"x".to_string(), qrange(Some(0), Some(100)), &scope)
        .expect("narrowing succeeds");
    assert_eq!(narrowed, anon(Some(2), Some(100)));

    let missing = resolve_assert(&"y".to_string(), qrange(Some(0), Some(1)), &scope);
    assert_eq!(missing, Err(ResolveError::UndefinedVariable("y".to_string())));
}
