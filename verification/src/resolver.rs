//! The executable resolver: the expression evaluator, the function-call
//! checker, the assertion narrower, and the statement driver.  Each function
//! is proved to return exactly the value of its spec in
//! `crate::semantics`.

use vstd::prelude::*;
use crate::ast::{constraint_eq, unconstrained, Constraint, Expr, Function, Range, RangeV};
use crate::diag::{ResolveError, ResolveFailure};
use crate::scope::Scope;
use crate::semantics::{
    add_cross, add_fits, add_row, arg_accepted, args_fit, call_fits, covers, covers_all,
    eval_fits, eval_result_v, lookup_from, narrow_range, narrow_ranges, range_add,
    run_fits, run_result_v, spec_call, spec_check_args, spec_eval, spec_lookup, spec_narrow,
    spec_narrow_var, spec_resolve, spec_run_from, spec_step, unconstrained_v,
};

verus! {

/// The view of an optional range.
pub open spec fn opt_range_v(o: Option<Range>) -> Option<RangeV> {
    match o {
        Some(r) => Some(r@),
        None => None,
    }
}

/// The intersection of the variable range `v` with the asserted range `a`,
/// or `None` when the intersection is empty.
fn narrow_one(v: Range, a: Range) -> (res: Option<Range>)
    ensures
        opt_range_v(res) == narrow_range(v@, a@),
{
    let start: Option<i64> = match v.start {
        None => a.start,
        Some(sv) => Some(sv),
    };
    let end: Option<i64> = match v.end {
        None => a.end,
        Some(ev) => Some(ev),
    };
    let starts_above = match (start, a.end) {
        (Some(sv), Some(ae)) => sv > ae,
        _ => false,
    };
    let ends_below = match (a.start, end) {
        (Some(av), Some(ev)) => av > ev,
        _ => false,
    };
    if starts_above || ends_below {
        return None;
    }
    let clamped_start: Option<i64> = match (start, a.start) {
        (Some(sv), Some(av)) => if sv >= av {
            Some(sv)
        } else {
            Some(av)
        },
        (Some(sv), None) => Some(sv),
        (None, Some(av)) => Some(av),
        (None, None) => None,
    };
    let clamped_end: Option<i64> = match (end, a.end) {
        (Some(ev), Some(av)) => if ev <= av {
            Some(ev)
        } else {
            Some(av)
        },
        (Some(ev), None) => Some(ev),
        (None, Some(av)) => Some(av),
        (None, None) => None,
    };
    Some(Range { start: clamped_start, end: clamped_end })
}

/// Whether the declared range `l` covers the candidate range `r`.
fn range_covers(l: &Range, r: &Range) -> (res: bool)
    ensures
        res == covers(l@, r@),
{
    let low_ok = match (l.start, r.start) {
        (None, _) => true,
        (Some(ls), Some(rs)) => ls <= rs,
        (Some(_), None) => false,
    };
    let high_ok = match (l.end, r.end) {
        (None, _) => true,
        (Some(le), Some(re)) => le >= re,
        (Some(_), None) => false,
    };
    low_ok && high_ok
}

/// Whether every declared range has a covering candidate among the derived
/// ranges.
fn check_covers_all(declared: &Vec<Range>, derived: &Vec<Range>) -> (res: bool)
    ensures
        res == covers_all(
            declared@.map_values(|x: Range| x@),
            derived@.map_values(|x: Range| x@),
        ),
{
    let ghost dv = declared@.map_values(|x: Range| x@);
    let ghost rv = derived@.map_values(|x: Range| x@);
    let mut i: usize = 0;
    while i < declared.len()
        invariant
            i <= declared@.len(),
            dv == declared@.map_values(|x: Range| x@),
            rv == derived@.map_values(|x: Range| x@),
            forall|k: int| 0 <= k < i ==> crate::semantics::covered_by(#[trigger] dv[k], rv),
        decreases declared@.len() - i,
    {
        let mut j: usize = 0;
        let mut found: bool = false;
        while j < derived.len() && !found
            invariant
                j <= derived@.len(),
                i < declared@.len(),
                dv == declared@.map_values(|x: Range| x@),
                rv == derived@.map_values(|x: Range| x@),
                !found ==> forall|jj: int| 0 <= jj < j ==> !covers(dv[i as int], #[trigger] rv[jj]),
                found ==> crate::semantics::covered_by(dv[i as int], rv),
            decreases derived@.len() - j,
        {
            proof {
                assert(dv[i as int] == declared@[i as int]@);
                assert(rv[j as int] == derived@[j as int]@);
            }
            if range_covers(&declared[i], &derived[j]) {
                found = true;
                proof {
                    assert(covers(dv[i as int], rv[j as int]));
                }
            }
            j += 1;
        }
        if !found {
            assert(forall|jj: int| 0 <= jj < rv.len() ==> !covers(dv[i as int], #[trigger] rv[jj]));
            assert(!crate::semantics::covered_by(dv[i as int], rv));
            assert(!covers_all(dv, rv));
            return false;
        }
        i += 1;
    }
    assert(covers_all(dv, rv));
    true
}

/// The sum of two constraints: the anonymous cross product of their range
/// sets, exact interval addition pair by pair.
fn add_constraints(l: &Constraint, r: &Constraint) -> (res: Constraint)
    requires
        add_fits(l@, r@),
    ensures
        res@ == crate::semantics::spec_add(l@, r@),
{
    let ghost lv = l@.ranges;
    let ghost rv = r@.ranges;
    let mut ranges: Vec<Range> = Vec::new();
    let mut i: usize = 0;
    while i < l.ranges.len()
        invariant
            i <= l.ranges@.len(),
            add_fits(l@, r@),
            lv == l@.ranges,
            rv == r@.ranges,
            lv.len() == l.ranges@.len(),
            rv.len() == r.ranges@.len(),
            ranges@.map_values(|x: Range| x@) == add_cross(lv.take(i as int), rv),
        decreases l.ranges@.len() - i,
    {
        let lr = l.ranges[i];
        let mut j: usize = 0;
        while j < r.ranges.len()
            invariant
                j <= r.ranges@.len(),
                i < l.ranges@.len(),
                add_fits(l@, r@),
                lv == l@.ranges,
                rv == r@.ranges,
                lv.len() == l.ranges@.len(),
                rv.len() == r.ranges@.len(),
                lr == l.ranges@[i as int],
                ranges@.map_values(|x: Range| x@) == add_cross(lv.take(i as int), rv) + add_row(
                    lv[i as int],
                    rv.take(j as int),
                ),
            decreases r.ranges@.len() - j,
        {
            let rr = r.ranges[j];
            proof {
                assert(lr@ == lv[i as int]);
                assert(rr@ == rv[j as int]);
                assert(crate::semantics::range_add_fits(lv[i as int], rv[j as int]));
            }
            let start: Option<i64> = match (lr.start, rr.start) {
                (Some(a), Some(b)) => Some(a + b),
                _ => None,
            };
            let end: Option<i64> = match (lr.end, rr.end) {
                (Some(a), Some(b)) => Some(a + b),
                _ => None,
            };
            let sum = Range { start, end };
            proof {
                assert(sum@ == range_add(lv[i as int], rv[j as int]));
            }
            let ghost before = ranges@;
            ranges.push(sum);
            proof {
                assert(ranges@ == before.push(sum));
                assert(ranges@.map_values(|x: Range| x@) =~= before.map_values(|x: Range| x@).push(
                    sum@,
                ));
                assert(rv.take(j + 1).drop_last() =~= rv.take(j as int));
                assert(rv.take(j + 1).last() == rv[j as int]);
                assert(add_row(lv[i as int], rv.take(j + 1)) == add_row(
                    lv[i as int],
                    rv.take(j as int),
                ).push(range_add(lv[i as int], rv[j as int])));
                assert(ranges@.map_values(|x: Range| x@) =~= add_cross(lv.take(i as int), rv)
                    + add_row(lv[i as int], rv.take(j + 1)));
            }
            j += 1;
        }
        proof {
            assert(rv.take(rv.len() as int) =~= rv);
            assert(lv.take(i + 1).drop_last() =~= lv.take(i as int));
            assert(lv.take(i + 1).last() == lv[i as int]);
            assert(add_cross(lv.take(i + 1), rv) == add_cross(lv.take(i as int), rv) + add_row(
                lv[i as int],
                rv,
            ));
        }
        i += 1;
    }
    proof {
        assert(lv.take(lv.len() as int) =~= lv);
    }
    let res = Constraint { name: None, ranges };
    proof {
        assert(res@ =~= crate::semantics::spec_add(l@, r@));
    }
    res
}

/// The index of the first function named `key`, if any.
fn find_function(functions: &[Function], key: &String) -> (r: Option<usize>)
    ensures
        match r {
            Some(i) => i < functions@.len() && spec_lookup(functions@, key@) == Some(
                functions@[i as int],
            ),
            None => spec_lookup(functions@, key@) is None,
        },
{
    let flen: usize = functions.len();
    let mut fi: usize = 0;
    while fi < flen
        invariant
            fi <= flen,
            flen == functions@.len(),
            lookup_from(functions@, key@, 0) == lookup_from(functions@, key@, fi as int),
        decreases flen - fi,
    {
        if functions[fi].name == *key {
            return Some(fi);
        }
        fi += 1;
    }
    None
}

/// Resolves a call of the function `id` on the argument expressions `args`:
/// looks the name up, checks the arity, evaluates each argument and checks
/// it against the declared parameter constraint, and returns the function's
/// declared result constraint.  The function body is never consulted.
pub fn resolve_fn(id: &str, args: &[Expr], scope: &Scope, functions: &[Function]) -> (res: Result<
    Constraint,
    ResolveError,
>)
    requires
        scope.wf(),
        call_fits(id@, args@, scope@, functions@),
    ensures
        eval_result_v(res) == spec_call(id@, args@, scope@, functions@),
    decreases args@, 1int, 0int,
{
    let key: String = id.to_owned();
    let fi: usize = match find_function(functions, &key) {
        None => {
            return Err(ResolveError::UndefinedFunction(key));
        },
        Some(fi) => fi,
    };
    let f = &functions[fi];
    proof {
        assert(spec_lookup(functions@, id@) == Some(*f));
    }
    if args.len() != f.args.len() {
        return Err(
            ResolveError::ArgumentCountMismatch {
                function: key,
                expected: f.args.len(),
                actual: args.len(),
            },
        );
    }
    let mut i: usize = 0;
    while i < args.len()
        invariant
            i <= args@.len(),
            args@.len() == f.args@.len(),
            scope.wf(),
            spec_lookup(functions@, id@) == Some(*f),
            args_fit(*f, args@, i as int, scope@, functions@),
            spec_check_args(*f, args@, 0, scope@, functions@) == spec_check_args(
                *f,
                args@,
                i as int,
                scope@,
                functions@,
            ),
        decreases args@.len() - i,
    {
        let derived = match resolve_expr(&args[i], scope, functions) {
            Ok(c) => c,
            Err(e) => {
                proof {
                    assert(spec_check_args(*f, args@, i as int, scope@, functions@) == Some(e@));
                }
                return Err(e);
            },
        };
        let declared = &f.args[i].1;
        let equal = constraint_eq(&derived, declared);
        let covered = if equal {
            true
        } else {
            check_covers_all(&declared.ranges, &derived.ranges)
        };
        if !covered {
            proof {
                assert(!arg_accepted(derived@, f.args@[i as int].1@));
            }
            return Err(
                ResolveError::ArgumentConstraintViolation {
                    function: f.name.clone(),
                    index: i,
                    argument: derived,
                    declared: declared.clone(),
                },
            );
        }
        proof {
            assert(arg_accepted(derived@, f.args@[i as int].1@));
            assert(spec_check_args(*f, args@, i as int, scope@, functions@) == spec_check_args(
                *f,
                args@,
                i + 1,
                scope@,
                functions@,
            ));
            assert(args_fit(*f, args@, i + 1, scope@, functions@));
        }
        i += 1;
    }
    proof {
        assert(spec_check_args(*f, args@, args@.len() as int, scope@, functions@) is None);
    }
    Ok(f.result.clone())
}

/// Evaluates an expression to the constraint of its value under `scope` and
/// `functions`.  Assignment is illegal here: it is a statement-only form.
pub fn resolve_expr(expr: &Expr, scope: &Scope, functions: &[Function]) -> (res: Result<
    Constraint,
    ResolveError,
>)
    requires
        scope.wf(),
        eval_fits(*expr, scope@, functions@),
    ensures
        eval_result_v(res) == spec_eval(*expr, scope@, functions@),
    decreases *expr, 0int, 0int,
{
    match expr {
        Expr::Call(id, cargs) => resolve_fn(id.as_str(), cargs.as_slice(), scope, functions),
        Expr::Assign(_, _) => Err(ResolveError::NestedAssignmentNotAllowed),
        Expr::Value(c) => Ok(c.clone()),
        Expr::Variable(id) => match scope.get(id.as_str()) {
            Some(c) => Ok(c.clone()),
            None => Err(ResolveError::UndefinedVariable(id.clone())),
        },
        Expr::Add(l, r) => {
            let lc = match resolve_expr(&**l, scope, functions) {
                Ok(c) => c,
                Err(e) => {
                    return Err(e);
                },
            };
            let rc = match resolve_expr(&**r, scope, functions) {
                Ok(c) => c,
                Err(e) => {
                    return Err(e);
                },
            };
            Ok(add_constraints(&lc, &rc))
        },
        _ => {
            let c = unconstrained();
            proof {
                assert(c@ =~= unconstrained_v());
            }
            Ok(c)
        },
    }
}

/// Narrows the constraint of the variable `id` by the asserted range:
/// intersects each of its current ranges with `assert_range`, discards the
/// empty intersections, and clamps the survivors; when nothing survives
/// (in particular when the variable was unconstrained) the result is the
/// asserted range alone.
pub fn resolve_assert(id: &String, assert_range: Range, scope: &Scope) -> (res: Result<
    Constraint,
    ResolveError,
>)
    requires
        scope.wf(),
    ensures
        eval_result_v(res) == spec_narrow_var(id@, assert_range@, scope@),
{
    let current = match scope.get(id.as_str()) {
        Some(c) => c,
        None => {
            return Err(ResolveError::UndefinedVariable(id.clone()));
        },
    };
    let ghost cv = current@.ranges;
    let mut ranges: Vec<Range> = Vec::new();
    let mut i: usize = 0;
    while i < current.ranges.len()
        invariant
            i <= current.ranges@.len(),
            cv == current@.ranges,
            cv.len() == current.ranges@.len(),
            ranges@.map_values(|x: Range| x@) == narrow_ranges(cv.take(i as int), assert_range@),
        decreases current.ranges@.len() - i,
    {
        let narrowed = narrow_one(current.ranges[i], assert_range);
        proof {
            assert(cv.take(i + 1).drop_last() =~= cv.take(i as int));
            assert(cv.take(i + 1).last() == cv[i as int]);
            assert(current.ranges@[i as int]@ == cv[i as int]);
        }
        match narrowed {
            Some(rg) => {
                let ghost before = ranges@;
                ranges.push(rg);
                proof {
                    assert(narrow_range(cv[i as int], assert_range@) == Some(rg@));
                    assert(ranges@.map_values(|x: Range| x@) =~= before.map_values(
                        |x: Range| x@,
                    ).push(rg@));
                    assert(narrow_ranges(cv.take(i + 1), assert_range@) == narrow_ranges(
                        cv.take(i as int),
                        assert_range@,
                    ).push(rg@));
                }
            },
            None => {
                proof {
                    assert(narrow_range(cv[i as int], assert_range@) is None);
                    assert(narrow_ranges(cv.take(i + 1), assert_range@) == narrow_ranges(
                        cv.take(i as int),
                        assert_range@,
                    ));
                }
            },
        }
        i += 1;
    }
    proof {
        assert(cv.take(cv.len() as int) =~= cv);
    }
    if ranges.len() == 0 {
        ranges.push(assert_range);
        proof {
            assert(ranges@.map_values(|x: Range| x@) =~= seq![assert_range@]);
        }
    }
    let res = Constraint { name: None, ranges };
    proof {
        assert(res@ =~= spec_narrow(scope@[id@], assert_range@));
    }
    Ok(res)
}

/// Resolves a whole program: processes the statements strictly in order
/// over one scope, evaluating and rebinding on assignment, narrowing and
/// rebinding on assertion, and evaluating every other expression for its
/// checks alone.  Returns the final scope, or the first fatal diagnostic
/// together with the index of the statement it arose at; there is no
/// rollback and no recovery.
pub fn resolve_exprs(exprs: Vec<Expr>, functions: Vec<Function>) -> (res: Result<
    Scope,
    ResolveFailure,
>)
    requires
        run_fits(exprs@, 0, Map::empty(), functions@),
    ensures
        run_result_v(res) == spec_resolve(exprs@, functions@),
        res matches Ok(s) ==> s.wf(),
{
    let mut scope = Scope::new();
    let n: usize = exprs.len();
    let mut i: usize = 0;
    while i < n
        invariant
            i <= n,
            n == exprs@.len(),
            scope.wf(),
            run_fits(exprs@, i as int, scope@, functions@),
            spec_run_from(exprs@, 0, Map::empty(), functions@) == spec_run_from(
                exprs@,
                i as int,
                scope@,
                functions@,
            ),
        decreases n - i,
    {
        let stmt = &exprs[i];
        match stmt {
            Expr::Assign(sid, e) => {
                match resolve_expr(&**e, &scope, functions.as_slice()) {
                    Ok(c) => {
                        proof {
                            assert(spec_step(exprs@[i as int], scope@, functions@) == Ok::<
                                _,
                                crate::diag::ErrorV,
                            >(scope@.insert(sid@, c@)));
                        }
                        scope.set(sid.clone(), c);
                    },
                    Err(er) => {
                        return Err(ResolveFailure { statement: i, error: er });
                    },
                }
            },
            Expr::Assert(sid, a) => {
                match resolve_assert(sid, *a, &scope) {
                    Ok(c) => {
                        proof {
                            assert(spec_step(exprs@[i as int], scope@, functions@) == Ok::<
                                _,
                                crate::diag::ErrorV,
                            >(scope@.insert(sid@, c@)));
                        }
                        scope.set(sid.clone(), c);
                    },
                    Err(er) => {
                        return Err(ResolveFailure { statement: i, error: er });
                    },
                }
            },
            _ => {
                match resolve_expr(stmt, &scope, functions.as_slice()) {
                    Ok(_) => {},
                    Err(er) => {
                        return Err(ResolveFailure { statement: i, error: er });
                    },
                }
            },
        }
        i += 1;
    }
    Ok(scope)
}

} // verus!
