//! The mathematical semantics of resolution: interval addition, the
//! range-containment test for call arguments, assertion narrowing, function
//! lookup, the expression evaluator, and the statement driver, all as spec
//! functions over the views of the data model.
//!
//! The executable resolver in `crate::resolver` is proved to return exactly
//! these values.

use vstd::prelude::*;
use vstd::multiset::Multiset;
use crate::ast::{Constraint, ConstraintV, Expr, Function, RangeV};
use crate::diag::{ErrorV, FailureV, ResolveError, ResolveFailure};
use crate::scope::Scope;

verus! {

/// The value of the "unconstrained" constraint: a name and no ranges.
pub open spec fn unconstrained_v() -> ConstraintV {
    ConstraintV { name: Some("unconstrained"@), ranges: Seq::empty() }
}

// ---------------------------------------------------------------------------
// Interval addition
// ---------------------------------------------------------------------------

/// Interval addition of two ranges.  A bound of the sum is unbounded when
/// either operand is unbounded on that side; otherwise it is the exact sum
/// of the two bounds.
pub open spec fn range_add(l: RangeV, r: RangeV) -> RangeV {
    RangeV {
        start: match (l.start, r.start) {
            (Some(a), Some(b)) => Some(a + b),
            _ => None,
        },
        end: match (l.end, r.end) {
            (Some(a), Some(b)) => Some(a + b),
            _ => None,
        },
    }
}

/// One row of the cross product: `lr` added to each range of `rs`, in order.
pub open spec fn add_row(lr: RangeV, rs: Seq<RangeV>) -> Seq<RangeV>
    decreases rs.len(),
{
    if rs.len() == 0 {
        Seq::empty()
    } else {
        add_row(lr, rs.drop_last()).push(range_add(lr, rs.last()))
    }
}

/// The full cross product: for every pair drawn from `ls` and `rs`, one sum
/// range, rows in the order of `ls`, columns in the order of `rs`.
pub open spec fn add_cross(ls: Seq<RangeV>, rs: Seq<RangeV>) -> Seq<RangeV>
    decreases ls.len(),
{
    if ls.len() == 0 {
        Seq::empty()
    } else {
        add_cross(ls.drop_last(), rs) + add_row(ls.last(), rs)
    }
}

/// The constraint of an addition: anonymous, holding the full cross product
/// of the operands' range sets.
pub open spec fn spec_add(l: ConstraintV, r: ConstraintV) -> ConstraintV {
    ConstraintV { name: None, ranges: add_cross(l.ranges, r.ranges) }
}

// ---------------------------------------------------------------------------
// Range containment for call arguments
// ---------------------------------------------------------------------------

/// Whether the declared range `l` covers the candidate range `r`: on each
/// side, the declared bound is unbounded, or the candidate bound is present
/// and lies within it.  A candidate that is unbounded on a side never
/// satisfies a bounded declared bound on that side.
pub open spec fn covers(l: RangeV, r: RangeV) -> bool {
    &&& match (l.start, r.start) {
        (None, _) => true,
        (Some(ls), Some(rs)) => ls <= rs,
        (Some(_), None) => false,
    }
    &&& match (l.end, r.end) {
        (None, _) => true,
        (Some(le), Some(re)) => le >= re,
        (Some(_), None) => false,
    }
}

/// Whether some candidate among the derived ranges covers `l`.
pub open spec fn covered_by(l: RangeV, derived: Seq<RangeV>) -> bool {
    exists|j: int| 0 <= j < derived.len() && covers(l, #[trigger] derived[j])
}

/// Every declared range has at least one covering candidate among the
/// derived ranges.
pub open spec fn covers_all(declared: Seq<RangeV>, derived: Seq<RangeV>) -> bool {
    forall|i: int| 0 <= i < declared.len() ==> covered_by(#[trigger] declared[i], derived)
}

/// Whether a call argument passes the check against its declared parameter
/// constraint: structurally equal (the fast path), or covered range by
/// range.
pub open spec fn arg_accepted(derived: ConstraintV, declared: ConstraintV) -> bool {
    derived == declared || covers_all(declared.ranges, derived.ranges)
}

// ---------------------------------------------------------------------------
// Assertion narrowing
// ---------------------------------------------------------------------------

/// The larger of two lower bounds, a missing bound standing for minus
/// infinity.
pub open spec fn max_start(x: Option<int>, y: Option<int>) -> Option<int> {
    match (x, y) {
        (Some(a), Some(b)) => if a >= b {
            Some(a)
        } else {
            Some(b)
        },
        (Some(a), None) => Some(a),
        (None, Some(b)) => Some(b),
        (None, None) => None,
    }
}

/// The smaller of two upper bounds, a missing bound standing for plus
/// infinity.
pub open spec fn min_end(x: Option<int>, y: Option<int>) -> Option<int> {
    match (x, y) {
        (Some(a), Some(b)) => if a <= b {
            Some(a)
        } else {
            Some(b)
        },
        (Some(a), None) => Some(a),
        (None, Some(b)) => Some(b),
        (None, None) => None,
    }
}

/// Whether the lower bound `s` lies strictly above the upper bound `e`.
/// An unbounded side never exceeds anything.
pub open spec fn start_above_end(s: Option<int>, e: Option<int>) -> bool {
    match (s, e) {
        (Some(sv), Some(ev)) => sv > ev,
        _ => false,
    }
}

/// The intersection of a variable's range `v` with the asserted range `a`,
/// or `None` when it is empty and the range is discarded.
///
/// A variable bound that is missing adopts the assertion's bound on that
/// side; surviving bounds are clamped to lie within `a`.  A bound missing on
/// both sides stays missing: unbounded sides are treated as infinities, so
/// an assertion that is itself unbounded on a side never discards a range on
/// account of that side.
pub open spec fn narrow_range(v: RangeV, a: RangeV) -> Option<RangeV> {
    let s = if v.start is None {
        a.start
    } else {
        v.start
    };
    let e = if v.end is None {
        a.end
    } else {
        v.end
    };
    if start_above_end(s, a.end) || start_above_end(a.start, e) {
        None
    } else {
        Some(RangeV { start: max_start(s, a.start), end: min_end(e, a.end) })
    }
}

/// The ranges that survive narrowing against `a`, clamped, in their
/// original order.
pub open spec fn narrow_ranges(rs: Seq<RangeV>, a: RangeV) -> Seq<RangeV>
    decreases rs.len(),
{
    if rs.len() == 0 {
        Seq::empty()
    } else {
        match narrow_range(rs.last(), a) {
            Some(r) => narrow_ranges(rs.drop_last(), a).push(r),
            None => narrow_ranges(rs.drop_last(), a),
        }
    }
}

/// The narrowed constraint: anonymous, holding the surviving clamped
/// ranges; when none survives (in particular when the variable was
/// unconstrained), a single range equal to the asserted range itself.
pub open spec fn spec_narrow(c: ConstraintV, a: RangeV) -> ConstraintV {
    let kept = narrow_ranges(c.ranges, a);
    ConstraintV {
        name: None,
        ranges: if kept.len() == 0 {
            seq![a]
        } else {
            kept
        },
    }
}

/// Narrowing the variable `id` in `scope` by the asserted range `a`; the
/// variable must already be in scope.
pub open spec fn spec_narrow_var(
    id: Seq<char>,
    a: RangeV,
    scope: Map<Seq<char>, ConstraintV>,
) -> Result<ConstraintV, ErrorV> {
    if scope.contains_key(id) {
        Ok(spec_narrow(scope[id], a))
    } else {
        Err(ErrorV::UndefinedVariable(id))
    }
}

// ---------------------------------------------------------------------------
// Function lookup
// ---------------------------------------------------------------------------

/// The first function at or after index `i` whose name is `id`.
pub open spec fn lookup_from(funcs: Seq<Function>, id: Seq<char>, i: int) -> Option<Function>
    decreases funcs.len() - i,
{
    if !(0 <= i < funcs.len()) {
        None
    } else if funcs[i].name@ == id {
        Some(funcs[i])
    } else {
        lookup_from(funcs, id, i + 1)
    }
}

/// The declaration a call of `id` resolves to: the first table entry with
/// that name.
pub open spec fn spec_lookup(funcs: Seq<Function>, id: Seq<char>) -> Option<Function> {
    lookup_from(funcs, id, 0)
}

// ---------------------------------------------------------------------------
// The evaluator and the call checker
// ---------------------------------------------------------------------------

/// The constraint of an expression under `scope` and `funcs`.
///
/// A variable reads its scope entry; a literal is its own value; nested
/// assignment is illegal; addition takes the interval cross product of its
/// operands; subtraction, multiplication and division are not modeled and
/// yield the unconstrained value without looking at their operands; a call
/// is checked against the declared signature; a range assertion in
/// expression position also yields the unconstrained value.
pub open spec fn spec_eval(
    expr: Expr,
    scope: Map<Seq<char>, ConstraintV>,
    funcs: Seq<Function>,
) -> Result<ConstraintV, ErrorV>
    decreases expr, 0int, 0int,
{
    match expr {
        Expr::Variable(id) => if scope.contains_key(id@) {
            Ok(scope[id@])
        } else {
            Err(ErrorV::UndefinedVariable(id@))
        },
        Expr::Value(c) => Ok(c@),
        Expr::Assign(_, _) => Err(ErrorV::NestedAssignmentNotAllowed),
        Expr::Add(l, r) => match spec_eval(*l, scope, funcs) {
            Err(e) => Err(e),
            Ok(lc) => match spec_eval(*r, scope, funcs) {
                Err(e) => Err(e),
                Ok(rc) => Ok(spec_add(lc, rc)),
            },
        },
        Expr::Sub(_, _) => Ok(unconstrained_v()),
        Expr::Mul(_, _) => Ok(unconstrained_v()),
        Expr::Div(_, _) => Ok(unconstrained_v()),
        Expr::Call(id, args) => spec_call(id@, args@, scope, funcs),
        Expr::Assert(_, _) => Ok(unconstrained_v()),
    }
}

/// The result of a call: the declared result constraint of the named
/// function once the arity and every argument check pass, else the first
/// error.  The body of the function plays no part.
pub open spec fn spec_call(
    id: Seq<char>,
    args: Seq<Expr>,
    scope: Map<Seq<char>, ConstraintV>,
    funcs: Seq<Function>,
) -> Result<ConstraintV, ErrorV>
    decreases args, 1int, 0int,
{
    match spec_lookup(funcs, id) {
        None => Err(ErrorV::UndefinedFunction(id)),
        Some(f) => if args.len() != f.args@.len() {
            Err(
                ErrorV::ArgumentCountMismatch {
                    function: id,
                    expected: f.args@.len() as int,
                    actual: args.len() as int,
                },
            )
        } else {
            match spec_check_args(f, args, 0, scope, funcs) {
                Some(e) => Err(e),
                None => Ok(f.result@),
            }
        },
    }
}

/// The first error among the argument checks from index `i` on: an
/// argument whose evaluation fails, or one whose derived constraint is not
/// accepted against the declared parameter constraint.  `None` when all
/// remaining arguments pass.
pub open spec fn spec_check_args(
    f: Function,
    args: Seq<Expr>,
    i: int,
    scope: Map<Seq<char>, ConstraintV>,
    funcs: Seq<Function>,
) -> Option<ErrorV>
    decreases args, 0int, f.args@.len() - i,
{
    if !(0 <= i < f.args@.len() && i < args.len()) {
        None
    } else {
        match spec_eval(args[i], scope, funcs) {
            Err(e) => Some(e),
            Ok(derived) => {
                let declared = f.args@[i].1@;
                if arg_accepted(derived, declared) {
                    spec_check_args(f, args, i + 1, scope, funcs)
                } else {
                    Some(
                        ErrorV::ArgumentConstraintViolation {
                            function: f.name@,
                            index: i,
                            argument: derived,
                            declared,
                        },
                    )
                }
            },
        }
    }
}

// ---------------------------------------------------------------------------
// Freedom from overflow
// ---------------------------------------------------------------------------

/// Whether both bound sums of one range pair stay within `i64`.
pub open spec fn range_add_fits(a: RangeV, b: RangeV) -> bool {
    &&& match (a.start, b.start) {
        (Some(x), Some(y)) => i64::MIN <= x + y <= i64::MAX,
        _ => true,
    }
    &&& match (a.end, b.end) {
        (Some(x), Some(y)) => i64::MIN <= x + y <= i64::MAX,
        _ => true,
    }
}

/// Whether every bound sum of the cross product of two constraints stays
/// within `i64`.
pub open spec fn add_fits(l: ConstraintV, r: ConstraintV) -> bool {
    forall|i: int, j: int|
        0 <= i < l.ranges.len() && 0 <= j < r.ranges.len() ==> range_add_fits(
            #[trigger] l.ranges[i],
            #[trigger] r.ranges[j],
        )
}

/// Whether every addition the evaluator performs on `expr` stays within
/// `i64`.  Operands that the evaluator never reaches (behind an earlier
/// error, or under an unmodeled operator) are not constrained.
pub open spec fn eval_fits(
    expr: Expr,
    scope: Map<Seq<char>, ConstraintV>,
    funcs: Seq<Function>,
) -> bool
    decreases expr, 0int, 0int,
{
    match expr {
        Expr::Add(l, r) => {
            &&& eval_fits(*l, scope, funcs)
            &&& (spec_eval(*l, scope, funcs) matches Ok(lc) ==> {
                &&& eval_fits(*r, scope, funcs)
                &&& (spec_eval(*r, scope, funcs) matches Ok(rc) ==> add_fits(lc, rc))
            })
        },
        Expr::Call(id, args) => call_fits(id@, args@, scope, funcs),
        _ => true,
    }
}

/// `eval_fits` for a call: every argument the checker reaches fits.
pub open spec fn call_fits(
    id: Seq<char>,
    args: Seq<Expr>,
    scope: Map<Seq<char>, ConstraintV>,
    funcs: Seq<Function>,
) -> bool
    decreases args, 1int, 0int,
{
    match spec_lookup(funcs, id) {
        None => true,
        Some(f) => args.len() == f.args@.len() ==> args_fit(f, args, 0, scope, funcs),
    }
}

/// `eval_fits` for the argument checks from index `i` on: later arguments
/// are only constrained while all earlier ones were accepted.
pub open spec fn args_fit(
    f: Function,
    args: Seq<Expr>,
    i: int,
    scope: Map<Seq<char>, ConstraintV>,
    funcs: Seq<Function>,
) -> bool
    decreases args, 0int, f.args@.len() - i,
{
    if !(0 <= i < f.args@.len() && i < args.len()) {
        true
    } else {
        &&& eval_fits(args[i], scope, funcs)
        &&& (spec_eval(args[i], scope, funcs) matches Ok(derived) ==> (arg_accepted(
            derived,
            f.args@[i].1@,
        ) ==> args_fit(f, args, i + 1, scope, funcs)))
    }
}

// ---------------------------------------------------------------------------
// The statement driver
// ---------------------------------------------------------------------------

/// One statement's effect on the scope.  An assignment evaluates its
/// right-hand side against the current scope and rebinds the target; an
/// assertion narrows and rebinds; any other expression is evaluated for its
/// checks alone and the scope is kept.
pub open spec fn spec_step(
    stmt: Expr,
    scope: Map<Seq<char>, ConstraintV>,
    funcs: Seq<Function>,
) -> Result<Map<Seq<char>, ConstraintV>, ErrorV> {
    match stmt {
        Expr::Assign(id, e) => match spec_eval(*e, scope, funcs) {
            Ok(c) => Ok(scope.insert(id@, c)),
            Err(er) => Err(er),
        },
        Expr::Assert(id, a) => match spec_narrow_var(id@, a@, scope) {
            Ok(c) => Ok(scope.insert(id@, c)),
            Err(er) => Err(er),
        },
        _ => match spec_eval(stmt, scope, funcs) {
            Ok(_) => Ok(scope),
            Err(er) => Err(er),
        },
    }
}

/// The scope after the statements from index `i` on, or the first fatal
/// diagnostic with the index of the statement it arose at.
pub open spec fn spec_run_from(
    stmts: Seq<Expr>,
    i: int,
    scope: Map<Seq<char>, ConstraintV>,
    funcs: Seq<Function>,
) -> Result<Map<Seq<char>, ConstraintV>, FailureV>
    decreases stmts.len() - i,
{
    if !(0 <= i < stmts.len()) {
        Ok(scope)
    } else {
        match spec_step(stmts[i], scope, funcs) {
            Ok(s2) => spec_run_from(stmts, i + 1, s2, funcs),
            Err(e) => Err(FailureV { statement: i, error: e }),
        }
    }
}

/// A whole resolution run: the statements in order over an initially empty
/// scope.
pub open spec fn spec_resolve(stmts: Seq<Expr>, funcs: Seq<Function>) -> Result<
    Map<Seq<char>, ConstraintV>,
    FailureV,
> {
    spec_run_from(stmts, 0, Map::empty(), funcs)
}

/// `eval_fits` for one statement.
pub open spec fn step_fits(
    stmt: Expr,
    scope: Map<Seq<char>, ConstraintV>,
    funcs: Seq<Function>,
) -> bool {
    match stmt {
        Expr::Assign(_, e) => eval_fits(*e, scope, funcs),
        Expr::Assert(_, _) => true,
        _ => eval_fits(stmt, scope, funcs),
    }
}

/// Whether every addition a run performs from statement `i` on stays
/// within `i64`: each statement fits under the scope the previous ones
/// left.
pub open spec fn run_fits(
    stmts: Seq<Expr>,
    i: int,
    scope: Map<Seq<char>, ConstraintV>,
    funcs: Seq<Function>,
) -> bool
    decreases stmts.len() - i,
{
    if !(0 <= i < stmts.len()) {
        true
    } else {
        &&& step_fits(stmts[i], scope, funcs)
        &&& (spec_step(stmts[i], scope, funcs) matches Ok(s2) ==> run_fits(
            stmts,
            i + 1,
            s2,
            funcs,
        ))
    }
}

// ---------------------------------------------------------------------------
// Laws
// ---------------------------------------------------------------------------

proof fn lemma_add_row_props(lr: RangeV, rs: Seq<RangeV>)
    ensures
        add_row(lr, rs).len() == rs.len(),
        forall|j: int| 0 <= j < rs.len() ==> add_row(lr, rs)[j] == range_add(lr, #[trigger] rs[j]),
    decreases rs.len(),
{
    if rs.len() > 0 {
        lemma_add_row_props(lr, rs.drop_last());
        assert forall|j: int| 0 <= j < rs.len() - 1 implies add_row(lr, rs)[j] == range_add(
            lr,
            #[trigger] rs[j],
        ) by {
            assert(rs.drop_last()[j] == rs[j]);
            assert(add_row(lr, rs)[j] == add_row(lr, rs.drop_last())[j]);
        }
    }
}

proof fn lemma_add_cross_len(ls: Seq<RangeV>, rs: Seq<RangeV>)
    ensures
        add_cross(ls, rs).len() == ls.len() * rs.len(),
    decreases ls.len(),
{
    if ls.len() == 0 {
    } else {
        lemma_add_cross_len(ls.drop_last(), rs);
        lemma_add_row_props(ls.last(), rs);
        assert((ls.len() - 1) * rs.len() + rs.len() == ls.len() * rs.len()) by (nonlinear_arith);
    }
}

proof fn lemma_add_cross_index(ls: Seq<RangeV>, rs: Seq<RangeV>, i: int, j: int)
    requires
        0 <= i < ls.len(),
        0 <= j < rs.len(),
    ensures
        0 <= i * rs.len() + j < add_cross(ls, rs).len(),
        add_cross(ls, rs)[i * rs.len() + j] == range_add(ls[i], rs[j]),
    decreases ls.len(),
{
    lemma_add_cross_len(ls, rs);
    assert(0 <= i * rs.len() + j < ls.len() * rs.len()) by (nonlinear_arith)
        requires
            0 <= i < ls.len(),
            0 <= j < rs.len(),
    ;
    lemma_add_cross_len(ls.drop_last(), rs);
    lemma_add_row_props(ls.last(), rs);
    if i == ls.len() - 1 {
        assert(i * rs.len() + j == (ls.len() - 1) * rs.len() + j);
        assert(add_cross(ls, rs)[i * rs.len() + j] == add_row(ls.last(), rs)[j]);
    } else {
        lemma_add_cross_index(ls.drop_last(), rs, i, j);
        assert(i * rs.len() + j < (ls.len() - 1) * rs.len()) by (nonlinear_arith)
            requires
                0 <= i < ls.len() - 1,
                0 <= j < rs.len(),
        ;
        assert(ls.drop_last()[i] == ls[i]);
    }
}

/// Addition of constraints is symmetric: `a + b` and `b + a` produce range
/// sets of the same size that are transposes of one another — the sum of
/// the `i`-th range of `a` and the `j`-th range of `b` stands in `a + b`
/// exactly where the sum of the `j`-th range of `b` and the `i`-th range of
/// `a` stands in `b + a`, and the two sums are the same range.  Both sums
/// are anonymous.
pub proof fn lemma_add_symmetric(a: ConstraintV, b: ConstraintV)
    ensures
        spec_add(a, b).ranges.len() == spec_add(b, a).ranges.len(),
        spec_add(a, b).name == spec_add(b, a).name,
        forall|i: int, j: int|
            0 <= i < a.ranges.len() && 0 <= j < b.ranges.len() ==> spec_add(a, b).ranges[i
                * b.ranges.len() + j] == range_add(#[trigger] a.ranges[i], #[trigger] b.ranges[j])
                && spec_add(b, a).ranges[j * a.ranges.len() + i] == range_add(
                a.ranges[i],
                b.ranges[j],
            ),
{
    lemma_add_cross_len(a.ranges, b.ranges);
    lemma_add_cross_len(b.ranges, a.ranges);
    assert(a.ranges.len() * b.ranges.len() == b.ranges.len() * a.ranges.len())
        by (nonlinear_arith);
    assert forall|i: int, j: int|
        0 <= i < a.ranges.len() && 0 <= j < b.ranges.len() implies spec_add(a, b).ranges[i
        * b.ranges.len() + j] == range_add(#[trigger] a.ranges[i], #[trigger] b.ranges[j])
        && spec_add(b, a).ranges[j * a.ranges.len() + i] == range_add(
        a.ranges[i],
        b.ranges[j],
    ) by {
        lemma_add_cross_index(a.ranges, b.ranges, i, j);
        lemma_add_cross_index(b.ranges, a.ranges, j, i);
        assert(range_add(a.ranges[i], b.ranges[j]) == range_add(b.ranges[j], a.ranges[i]));
    }
}

proof fn lemma_add_cross_empty_right(ls: Seq<RangeV>)
    ensures
        add_cross(ls, Seq::<RangeV>::empty()) == Seq::<RangeV>::empty(),
    decreases ls.len(),
{
    if ls.len() > 0 {
        lemma_add_cross_empty_right(ls.drop_last());
        assert(add_cross(ls, Seq::<RangeV>::empty()) =~= Seq::<RangeV>::empty());
    }
}

proof fn lemma_cross_push_right(rs: Seq<RangeV>, ls: Seq<RangeV>, l: RangeV)
    ensures
        add_cross(rs, ls.push(l)).to_multiset() == add_cross(rs, ls).to_multiset().add(
            add_row(l, rs).to_multiset(),
        ),
    decreases rs.len(),
{
    broadcast use vstd::seq_lib::group_to_multiset_ensures;
    broadcast use vstd::multiset::group_multiset_axioms;

    if rs.len() == 0 {
        assert(add_cross(rs, ls.push(l)) == add_cross(rs, ls));
        assert(add_row(l, rs).to_multiset().len() == 0);
        assert(add_row(l, rs).to_multiset() =~= Multiset::<RangeV>::empty());
        assert(add_cross(rs, ls.push(l)).to_multiset() =~= add_cross(rs, ls).to_multiset().add(
            add_row(l, rs).to_multiset(),
        ));
    } else {
        let rs2 = rs.drop_last();
        let rl = rs.last();
        lemma_cross_push_right(rs2, ls, l);
        assert(ls.push(l).drop_last() =~= ls);
        assert(add_row(rl, ls.push(l)) == add_row(rl, ls).push(range_add(rl, l)));
        vstd::seq_lib::lemma_multiset_commutative(
            add_cross(rs2, ls.push(l)),
            add_row(rl, ls.push(l)),
        );
        vstd::seq_lib::lemma_multiset_commutative(add_cross(rs2, ls), add_row(rl, ls));
        assert(add_row(rl, ls.push(l)).to_multiset() =~= add_row(rl, ls).to_multiset().insert(
            range_add(rl, l),
        ));
        assert(add_row(l, rs) == add_row(l, rs2).push(range_add(l, rl)));
        assert(add_row(l, rs).to_multiset() =~= add_row(l, rs2).to_multiset().insert(
            range_add(l, rl),
        ));
        assert(range_add(l, rl) == range_add(rl, l));
        assert(add_cross(rs, ls.push(l)).to_multiset() =~= add_cross(rs, ls).to_multiset().add(
            add_row(l, rs).to_multiset(),
        ));
    }
}

proof fn lemma_cross_multiset(ls: Seq<RangeV>, rs: Seq<RangeV>)
    ensures
        add_cross(ls, rs).to_multiset() == add_cross(rs, ls).to_multiset(),
    decreases ls.len(),
{
    broadcast use vstd::seq_lib::group_to_multiset_ensures;
    broadcast use vstd::multiset::group_multiset_axioms;

    if ls.len() == 0 {
        lemma_add_cross_empty_right(rs);
        assert(ls =~= Seq::<RangeV>::empty());
        assert(add_cross(ls, rs) == add_cross(rs, ls));
    } else {
        let ls2 = ls.drop_last();
        let l = ls.last();
        lemma_cross_multiset(ls2, rs);
        vstd::seq_lib::lemma_multiset_commutative(add_cross(ls2, rs), add_row(l, rs));
        assert(ls2.push(l) =~= ls);
        lemma_cross_push_right(rs, ls2, l);
        assert(add_cross(ls, rs).to_multiset() =~= add_cross(rs, ls).to_multiset());
    }
}

/// The two sums hold the same ranges: as multisets — that is, up to range
/// ordering — the range set of `a + b` equals that of `b + a`.
pub proof fn lemma_add_symmetric_multiset(a: ConstraintV, b: ConstraintV)
    ensures
        spec_add(a, b).ranges.to_multiset() == spec_add(b, a).ranges.to_multiset(),
{
    lemma_cross_multiset(a.ranges, b.ranges);
}

/// A call that passes its checks returns the declared result constraint of
/// the first table entry with the called name, verbatim: resolution never
/// reads the declaration's body.
pub proof fn lemma_call_returns_declared_result(
    id: Seq<char>,
    args: Seq<Expr>,
    scope: Map<Seq<char>, ConstraintV>,
    funcs: Seq<Function>,
)
    ensures
        spec_call(id, args, scope, funcs) matches Ok(c) ==> (spec_lookup(funcs, id) matches Some(f)
            && c == f.result@),
{
}

/// Whether two declarations agree on everything a call site consults:
/// name, parameter names and constraints, and result constraint.  Their
/// bodies may differ arbitrarily.
pub open spec fn same_interface(f: Function, g: Function) -> bool {
    &&& f.name@ == g.name@
    &&& f.args@.len() == g.args@.len()
    &&& forall|i: int|
        0 <= i < f.args@.len() ==> (#[trigger] f.args@[i]).0@ == g.args@[i].0@ && f.args@[i].1@
            == g.args@[i].1@
    &&& f.result@ == g.result@
}

/// Whether two function tables agree entry by entry on everything but
/// bodies.
pub open spec fn same_interfaces(fs: Seq<Function>, gs: Seq<Function>) -> bool {
    fs.len() == gs.len() && forall|i: int|
        0 <= i < fs.len() ==> same_interface(#[trigger] fs[i], gs[i])
}

proof fn lemma_lookup_ignores_bodies(fs: Seq<Function>, gs: Seq<Function>, id: Seq<char>, i: int)
    requires
        same_interfaces(fs, gs),
    ensures
        match (lookup_from(fs, id, i), lookup_from(gs, id, i)) {
            (None, None) => true,
            (Some(f), Some(g)) => same_interface(f, g),
            _ => false,
        },
    decreases fs.len() - i,
{
    if 0 <= i < fs.len() && fs[i].name@ != id {
        lemma_lookup_ignores_bodies(fs, gs, id, i + 1);
    }
}

proof fn lemma_check_args_ignores_bodies(
    f: Function,
    g: Function,
    args: Seq<Expr>,
    i: int,
    scope: Map<Seq<char>, ConstraintV>,
    fs: Seq<Function>,
    gs: Seq<Function>,
)
    requires
        same_interfaces(fs, gs),
        same_interface(f, g),
    ensures
        spec_check_args(f, args, i, scope, fs) == spec_check_args(g, args, i, scope, gs),
    decreases args, 0int, f.args@.len() - i,
{
    if 0 <= i < f.args@.len() && i < args.len() {
        lemma_eval_ignores_bodies(args[i], scope, fs, gs);
        match spec_eval(args[i], scope, fs) {
            Err(_) => {},
            Ok(derived) => {
                if arg_accepted(derived, f.args@[i].1@) {
                    lemma_check_args_ignores_bodies(f, g, args, i + 1, scope, fs, gs);
                }
            },
        }
    }
}

proof fn lemma_call_ignores_bodies(
    id: Seq<char>,
    args: Seq<Expr>,
    scope: Map<Seq<char>, ConstraintV>,
    fs: Seq<Function>,
    gs: Seq<Function>,
)
    requires
        same_interfaces(fs, gs),
    ensures
        spec_call(id, args, scope, fs) == spec_call(id, args, scope, gs),
    decreases args, 1int, 0int,
{
    lemma_lookup_ignores_bodies(fs, gs, id, 0);
    match (spec_lookup(fs, id), spec_lookup(gs, id)) {
        (Some(f), Some(g)) => {
            if args.len() == f.args@.len() {
                lemma_check_args_ignores_bodies(f, g, args, 0, scope, fs, gs);
            }
        },
        _ => {},
    }
}

/// The bodies of declared functions play no part in resolution: evaluating
/// any expression against two function tables that agree on names,
/// parameters and result constraints — but whose bodies differ arbitrarily
/// — gives the same result.
pub proof fn lemma_eval_ignores_bodies(
    e: Expr,
    scope: Map<Seq<char>, ConstraintV>,
    fs: Seq<Function>,
    gs: Seq<Function>,
)
    requires
        same_interfaces(fs, gs),
    ensures
        spec_eval(e, scope, fs) == spec_eval(e, scope, gs),
    decreases e, 0int, 0int,
{
    match e {
        Expr::Add(l, r) => {
            lemma_eval_ignores_bodies(*l, scope, fs, gs);
            lemma_eval_ignores_bodies(*r, scope, fs, gs);
        },
        Expr::Call(id, args) => {
            lemma_call_ignores_bodies(id@, args@, scope, fs, gs);
        },
        _ => {},
    }
}

/// A whole resolution run ignores function bodies too: the statements
/// resolve to the same final scope, or fail with the same diagnostic at the
/// same statement, against two tables that agree on everything but bodies.
pub proof fn lemma_run_ignores_bodies(
    stmts: Seq<Expr>,
    i: int,
    scope: Map<Seq<char>, ConstraintV>,
    fs: Seq<Function>,
    gs: Seq<Function>,
)
    requires
        same_interfaces(fs, gs),
    ensures
        spec_run_from(stmts, i, scope, fs) == spec_run_from(stmts, i, scope, gs),
    decreases stmts.len() - i,
{
    if 0 <= i < stmts.len() {
        match stmts[i] {
            Expr::Assign(_, e) => {
                lemma_eval_ignores_bodies(*e, scope, fs, gs);
            },
            Expr::Assert(_, _) => {},
            _ => {
                lemma_eval_ignores_bodies(stmts[i], scope, fs, gs);
            },
        }
        match spec_step(stmts[i], scope, fs) {
            Ok(s2) => {
                lemma_run_ignores_bodies(stmts, i + 1, s2, fs, gs);
            },
            Err(_) => {},
        }
    }
}

/// Narrowing an unconstrained variable — one whose constraint holds no
/// ranges — by any asserted range yields a constraint with exactly one
/// range, equal to the asserted range itself.
pub proof fn lemma_unconstrained_absorption(c: ConstraintV, a: RangeV)
    requires
        c.ranges.len() == 0,
    ensures
        spec_narrow(c, a).ranges == seq![a],
        spec_narrow(c, a).name is None,
{
    assert(narrow_ranges(c.ranges, a).len() == 0);
}

/// Whether a range respects the bounds of `a`: on each side where `a` is
/// bounded, the range is bounded too and lies inside.
pub open spec fn range_within(r: RangeV, a: RangeV) -> bool {
    &&& (a.start matches Some(av) ==> r.start matches Some(rv) && rv >= av)
    &&& (a.end matches Some(ae) ==> r.end matches Some(re) && re <= ae)
}

proof fn lemma_narrow_ranges_within(rs: Seq<RangeV>, a: RangeV)
    ensures
        forall|k: int|
            0 <= k < narrow_ranges(rs, a).len() ==> range_within(
                #[trigger] narrow_ranges(rs, a)[k],
                a,
            ),
    decreases rs.len(),
{
    if rs.len() > 0 {
        lemma_narrow_ranges_within(rs.drop_last(), a);
        match narrow_range(rs.last(), a) {
            Some(r) => {
                assert(range_within(r, a));
                assert forall|k: int| 0 <= k < narrow_ranges(rs, a).len() implies range_within(
                    #[trigger] narrow_ranges(rs, a)[k],
                    a,
                ) by {
                    if k < narrow_ranges(rs, a).len() - 1 {
                        assert(narrow_ranges(rs, a)[k] == narrow_ranges(rs.drop_last(), a)[k]);
                    }
                }
            },
            None => {},
        }
    }
}

/// Narrowing never escapes the assertion: every range of the narrowed
/// constraint respects the asserted bounds — where the assertion is bounded
/// on a side, each output range is bounded there too and lies inside.
pub proof fn lemma_narrow_within(c: ConstraintV, a: RangeV)
    ensures
        forall|k: int|
            0 <= k < spec_narrow(c, a).ranges.len() ==> range_within(
                #[trigger] spec_narrow(c, a).ranges[k],
                a,
            ),
{
    lemma_narrow_ranges_within(c.ranges, a);
}

// ---------------------------------------------------------------------------
// Result views
// ---------------------------------------------------------------------------

/// The mathematical value of an evaluation result.
pub open spec fn eval_result_v(r: Result<Constraint, ResolveError>) -> Result<
    ConstraintV,
    ErrorV,
> {
    match r {
        Ok(c) => Ok(c@),
        Err(e) => Err(e@),
    }
}

/// The mathematical value of a whole run's result.
pub open spec fn run_result_v(r: Result<Scope, ResolveFailure>) -> Result<
    Map<Seq<char>, ConstraintV>,
    FailureV,
> {
    match r {
        Ok(s) => Ok(s@),
        Err(f) => Err(f@),
    }
}

} // verus!
