//! The data model: integer ranges with optional bounds, named constraints
//! over unions of ranges, expression trees, and function declarations.

use vstd::prelude::*;

verus! {

/// Variable and function names.
pub type Id = String;

/// An integer interval with optional bounds.  A missing bound means the
/// range is unbounded in that direction.
#[derive(Copy, Clone, Debug, PartialEq, Eq)]
pub struct Range {
    pub start: Option<i64>,
    pub end: Option<i64>,
}

/// The mathematical value of a `Range`: the same pair of optional bounds,
/// over unbounded integers.
pub struct RangeV {
    pub start: Option<int>,
    pub end: Option<int>,
}

impl View for Range {
    type V = RangeV;

    open spec fn view(&self) -> RangeV {
        RangeV {
            start: match self.start {
                Some(v) => Some(v as int),
                None => None,
            },
            end: match self.end {
                Some(v) => Some(v as int),
                None => None,
            },
        }
    }
}

/// An optional human-readable name plus an ordered sequence of ranges.
/// The ranges are a union: the value lies in any of them.  An empty range
/// sequence means "no known restriction".
#[derive(Debug, PartialEq, Eq)]
pub struct Constraint {
    pub name: Option<String>,
    pub ranges: Vec<Range>,
}

/// The mathematical value of a `Constraint`.
pub struct ConstraintV {
    pub name: Option<Seq<char>>,
    pub ranges: Seq<RangeV>,
}

impl View for Constraint {
    type V = ConstraintV;

    open spec fn view(&self) -> ConstraintV {
        ConstraintV {
            name: match self.name {
                Some(s) => Some(s@),
                None => None,
            },
            ranges: self.ranges@.map_values(|r: Range| r@),
        }
    }
}

/// A declared function: name, ordered parameters with their declared
/// constraints, a declared result constraint, and a body.  The body is
/// stored but never consulted by resolution: call sites trust the declared
/// signature alone.
#[derive(Debug)]
pub struct Function {
    pub name: String,
    pub args: Vec<(String, Constraint)>,
    pub result: Constraint,
    pub body: Vec<Expr>,
}

/// An expression tree: variable references, literal constraints,
/// assignment (statement position only), binary arithmetic, function
/// calls, and range assertions.
#[derive(Debug)]
pub enum Expr {
    Variable(Id),
    Value(Constraint),
    Assign(Id, Box<Expr>),
    Add(Box<Expr>, Box<Expr>),
    Sub(Box<Expr>, Box<Expr>),
    Mul(Box<Expr>, Box<Expr>),
    Div(Box<Expr>, Box<Expr>),
    Call(Id, Vec<Expr>),
    Assert(Id, Range),
}

impl Clone for Constraint {
    /// A deep copy with the same name and the same ranges.
    fn clone(&self) -> (r: Self)
        ensures
            r@ == self@,
    {
        let name: Option<String> = match &self.name {
            Some(s) => Some(s.clone()),
            None => None,
        };
        let mut ranges: Vec<Range> = Vec::new();
        let mut i: usize = 0;
        while i < self.ranges.len()
            invariant
                i <= self.ranges.len(),
                ranges@ == self.ranges@.subrange(0, i as int),
            decreases self.ranges.len() - i,
        {
            ranges.push(self.ranges[i]);
            assert(ranges@ == self.ranges@.subrange(0, i + 1));
            i += 1;
        }
        assert(ranges@ == self.ranges@);
        let r = Constraint { name, ranges };
        assert(r@.ranges == self@.ranges);
        r
    }
}

/// Whether two optional bounds are the same.
pub fn opt_bound_eq(a: &Option<i64>, b: &Option<i64>) -> (r: bool)
    ensures
        r == (match (a, b) {
            (Some(x), Some(y)) => x == y,
            (None, None) => true,
            _ => false,
        }),
{
    match (a, b) {
        (Some(x), Some(y)) => *x == *y,
        (None, None) => true,
        _ => false,
    }
}

/// Whether two ranges have the same bounds.
pub fn range_eq(a: &Range, b: &Range) -> (r: bool)
    ensures
        r == (a@ == b@),
{
    let r = opt_bound_eq(&a.start, &b.start) && opt_bound_eq(&a.end, &b.end);
    r
}

/// Structural equality of constraints: same name (or both anonymous) and the
/// same ranges in the same order.  Two differently named constraints covering
/// identical numeric sets are not equal.
pub fn constraint_eq(a: &Constraint, b: &Constraint) -> (r: bool)
    ensures
        r == (a@ == b@),
{
    let names_eq = match (&a.name, &b.name) {
        (Some(x), Some(y)) => *x == *y,
        (None, None) => true,
        _ => false,
    };
    if !names_eq {
        assert(a@.name != b@.name);
        return false;
    }
    if a.ranges.len() != b.ranges.len() {
        assert(a@.ranges.len() != b@.ranges.len());
        return false;
    }
    let mut i: usize = 0;
    while i < a.ranges.len()
        invariant
            i <= a.ranges.len(),
            a.ranges.len() == b.ranges.len(),
            forall|k: int| 0 <= k < i ==> a.ranges@[k]@ == b.ranges@[k]@,
        decreases a.ranges.len() - i,
    {
        if !range_eq(&a.ranges[i], &b.ranges[i]) {
            assert(a@.ranges[i as int] != b@.ranges[i as int]);
            return false;
        }
        i += 1;
    }
    assert(a@.ranges =~= b@.ranges);
    assert(a@.name == b@.name);
    true
}

// The constructors below hand-build expression trees and constraint values.

/// A literal constraint holding the single value `v`.
pub fn qval(v: i64) -> (r: Expr)
    ensures
        r matches Expr::Value(c) && c@ == (ConstraintV {
            name: None,
            ranges: seq![RangeV { start: Some(v as int), end: Some(v as int) }],
        }),
{
    let mut ranges: Vec<Range> = Vec::new();
    ranges.push(Range { start: Some(v), end: Some(v) });
    let c = Constraint { name: None, ranges };
    assert(c@.ranges =~= seq![RangeV { start: Some(v as int), end: Some(v as int) }]);
    Expr::Value(c)
}

/// A reference to the variable `name`.
pub fn qvar(name: &'static str) -> (r: Expr)
    ensures
        r matches Expr::Variable(id) && id@ == name@,
{
    Expr::Variable(name.to_owned())
}

/// A range with the given optional bounds.
pub fn qrange(start: Option<i64>, end: Option<i64>) -> (r: Range)
    ensures
        r.start == start,
        r.end == end,
{
    Range { start, end }
}

/// A constraint with an optional name and a single range.
pub fn qconstraint(name: Option<&'static str>, start: Option<i64>, end: Option<i64>) -> (r:
    Constraint)
    ensures
        r@.name == (match name {
            Some(n) => Some(n@),
            None => None::<Seq<char>>,
        }),
        r@.ranges == seq![(Range { start, end })@],
{
    let name: Option<String> = match name {
        Some(n) => Some(n.to_owned()),
        None => None,
    };
    let mut ranges: Vec<Range> = Vec::new();
    ranges.push(Range { start, end });
    let c = Constraint { name, ranges };
    assert(c@.ranges =~= seq![(Range { start, end })@]);
    c
}

/// The constraint that carries no information: named "unconstrained", with
/// an empty range set.
pub fn unconstrained() -> (r: Constraint)
    ensures
        r@.name == Some("unconstrained"@),
        r@.ranges == Seq::<RangeV>::empty(),
{
    let name: Option<String> = Some("unconstrained".to_owned());
    let ranges: Vec<Range> = Vec::new();
    let c = Constraint { name, ranges };
    assert(c@.ranges =~= Seq::<RangeV>::empty());
    c
}

/// A function declaration.
pub fn qfn(name: &'static str, args: Vec<(String, Constraint)>, result: Constraint, body: Vec<
    Expr>) -> (r: Function)
    ensures
        r.name@ == name@,
        r.args == args,
        r.result == result,
        r.body == body,
{
    Function { name: name.to_owned(), args, result, body }
}

/// A division node.
pub fn qdiv(lhs: Expr, rhs: Expr) -> (r: Expr)
    ensures
        r matches Expr::Div(l, rr) && *l == lhs && *rr == rhs,
{
    Expr::Div(Box::new(lhs), Box::new(rhs))
}

/// An addition node.
pub fn qadd(lhs: Expr, rhs: Expr) -> (r: Expr)
    ensures
        r matches Expr::Add(l, rr) && *l == lhs && *rr == rhs,
{
    Expr::Add(Box::new(lhs), Box::new(rhs))
}

/// An assignment of `rhs` to the variable `id`.
pub fn qassign(id: &'static str, rhs: Expr) -> (r: Expr)
    ensures
        r matches Expr::Assign(i, e) && i@ == id@ && *e == rhs,
{
    Expr::Assign(id.to_owned(), Box::new(rhs))
}

/// A call of the function `func` on the given arguments.
pub fn qcall(func: &'static str, args: Vec<Expr>) -> (r: Expr)
    ensures
        r matches Expr::Call(f, a) && f@ == func@ && a == args,
{
    Expr::Call(func.to_owned(), args)
}

/// An assertion that the variable `id` lies in `range`.
pub fn qassert(id: &'static str, range: Range) -> (r: Expr)
    ensures
        r matches Expr::Assert(i, rg) && i@ == id@ && rg == range,
{
    Expr::Assert(id.to_owned(), range)
}

} // verus!
