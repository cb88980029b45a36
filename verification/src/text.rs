//! Rendering of ranges and constraints as text, with an exact
//! character-sequence specification.
//!
//! A range reads as `start..end`, a missing bound left empty.  A constraint
//! reads as its optional quoted name followed by its single range in
//! parentheses, `(..)` when it holds no range, or a bracketed list.  The
//! name is quoted verbatim, without escaping.

use vstd::prelude::*;
use vstd::string::StringExecFns;
use crate::ast::{Constraint, ConstraintV, Range, RangeV};

verus! {

/// The character of one decimal digit.
pub open spec fn digit_char(d: nat) -> char {
    if d == 0 {
        '0'
    } else if d == 1 {
        '1'
    } else if d == 2 {
        '2'
    } else if d == 3 {
        '3'
    } else if d == 4 {
        '4'
    } else if d == 5 {
        '5'
    } else if d == 6 {
        '6'
    } else if d == 7 {
        '7'
    } else if d == 8 {
        '8'
    } else {
        '9'
    }
}

/// The decimal digits of `n`, most significant first, without a sign and
/// without leading zeros (a single zero for zero).
pub open spec fn dec_digits(n: nat) -> Seq<char>
    decreases n,
{
    if n < 10 {
        seq![digit_char(n)]
    } else {
        dec_digits(n / 10).push(digit_char(n % 10))
    }
}

/// The decimal text of a signed integer.
pub open spec fn int_text(x: int) -> Seq<char> {
    if x < 0 {
        seq!['-'] + dec_digits((-x) as nat)
    } else {
        dec_digits(x as nat)
    }
}

/// The text of an optional bound: its decimal value, or nothing.
pub open spec fn bound_text(b: Option<int>) -> Seq<char> {
    match b {
        Some(v) => int_text(v),
        None => Seq::empty(),
    }
}

/// The text of a range: both bounds around "..".
pub open spec fn range_text(r: RangeV) -> Seq<char> {
    bound_text(r.start) + ".."@ + bound_text(r.end)
}

/// The text of a list of ranges, each followed by ", ".
pub open spec fn ranges_text(rs: Seq<RangeV>) -> Seq<char>
    decreases rs.len(),
{
    if rs.len() == 0 {
        Seq::empty()
    } else {
        ranges_text(rs.drop_last()) + range_text(rs.last()) + ", "@
    }
}

/// The text of a constraint without its name: one range in parentheses,
/// `(..)` for none, or the bracketed list, closed over the trailing
/// separator by two backspace characters.
pub open spec fn ranges_block_text(rs: Seq<RangeV>) -> Seq<char> {
    if rs.len() == 0 {
        "(..)"@
    } else if rs.len() == 1 {
        "("@ + range_text(rs[0]) + ")"@
    } else {
        "["@ + ranges_text(rs) + "\u{8}\u{8}]"@
    }
}

/// The text of a constraint: its quoted name and a space, when it has one,
/// then its ranges.
pub open spec fn constraint_text(c: ConstraintV) -> Seq<char> {
    match c.name {
        Some(n) => "\""@ + n + "\" "@ + ranges_block_text(c.ranges),
        None => ranges_block_text(c.ranges),
    }
}

/// Appends the decimal digits of `n`.
fn push_digits(n: u64, s: &mut String)
    ensures
        final(s)@ == old(s)@ + dec_digits(n as nat),
    decreases n,
{
    if n >= 10 {
        push_digits(n / 10, s);
    }
    let d = n % 10;
    let ds: &str = match d {
        0 => "0",
        1 => "1",
        2 => "2",
        3 => "3",
        4 => "4",
        5 => "5",
        6 => "6",
        7 => "7",
        8 => "8",
        _ => "9",
    };
    proof {
        reveal_strlit("0");
        reveal_strlit("1");
        reveal_strlit("2");
        reveal_strlit("3");
        reveal_strlit("4");
        reveal_strlit("5");
        reveal_strlit("6");
        reveal_strlit("7");
        reveal_strlit("8");
        reveal_strlit("9");
        assert(ds@ =~= seq![digit_char((n % 10) as nat)]);
    }
    s.append(ds);
    proof {
        if n < 10 {
            assert(dec_digits(n as nat) == seq![digit_char(n as nat)]);
            assert(final(s)@ =~= old(s)@ + dec_digits(n as nat));
        } else {
            assert(dec_digits(n as nat) == dec_digits(n as nat / 10).push(
                digit_char(n as nat % 10),
            ));
            assert(final(s)@ =~= old(s)@ + dec_digits(n as nat));
        }
    }
}

/// Appends the decimal text of `x`.
fn push_int_text(x: i64, s: &mut String)
    ensures
        final(s)@ == old(s)@ + int_text(x as int),
{
    if x >= 0 {
        push_digits(x as u64, s);
    } else {
        s.append("-");
        proof {
            reveal_strlit("-");
        }
        let mag: u64 = if x == i64::MIN {
            9223372036854775808u64
        } else {
            (-x) as u64
        };
        proof {
            assert(mag as nat == (-(x as int)) as nat);
        }
        push_digits(mag, s);
        proof {
            assert(final(s)@ =~= old(s)@ + int_text(x as int));
        }
    }
}

impl Range {
    /// The text of this range: `start..end`, a missing bound left empty.
    pub fn render(&self) -> (s: String)
        ensures
            s@ == range_text(self@),
    {
        let mut s = String::new();
        match self.start {
            Some(v) => push_int_text(v, &mut s),
            None => {},
        }
        s.append("..");
        match self.end {
            Some(v) => push_int_text(v, &mut s),
            None => {},
        }
        proof {
            reveal_strlit("..");
            assert(s@ =~= range_text(self@));
        }
        s
    }
}

impl Constraint {
    /// The text of this constraint: its quoted name when it has one, then
    /// its single range in parentheses, `(..)` when it holds none, or the
    /// bracketed list of all of them.
    pub fn render(&self) -> (s: String)
        ensures
            s@ == constraint_text(self@),
    {
        let mut s = String::new();
        match &self.name {
            Some(n) => {
                s.append("\"");
                s.append(n.as_str());
                s.append("\" ");
                proof {
                    reveal_strlit("\"");
                    reveal_strlit("\" ");
                    assert(s@ =~= "\""@ + self@.name->0 + "\" "@);
                }
            },
            None => {},
        }
        let ghost header = s@;
        if self.ranges.len() == 0 {
            s.append("(..)");
            proof {
                reveal_strlit("(..)");
                assert(s@ =~= header + ranges_block_text(self@.ranges));
            }
        } else if self.ranges.len() == 1 {
            s.append("(");
            let r = self.ranges[0].render();
            s.append(r.as_str());
            s.append(")");
            proof {
                reveal_strlit("(");
                reveal_strlit(")");
                assert(self@.ranges[0] == self.ranges@[0]@);
                assert(s@ =~= header + ranges_block_text(self@.ranges));
            }
        } else {
            s.append("[");
            let ghost rv = self@.ranges;
            let mut i: usize = 0;
            while i < self.ranges.len()
                invariant
                    i <= self.ranges@.len(),
                    rv == self@.ranges,
                    rv.len() == self.ranges@.len(),
                    s@ == header + "["@ + ranges_text(rv.take(i as int)),
                decreases self.ranges@.len() - i,
            {
                let r = self.ranges[i].render();
                s.append(r.as_str());
                s.append(", ");
                proof {
                    reveal_strlit(", ");
                    assert(rv.take(i + 1).drop_last() =~= rv.take(i as int));
                    assert(rv.take(i + 1).last() == rv[i as int]);
                    assert(self.ranges@[i as int]@ == rv[i as int]);
                    assert(s@ =~= header + "["@ + ranges_text(rv.take(i + 1)));
                }
                i += 1;
            }
            s.append("\u{8}\u{8}]");
            proof {
                reveal_strlit("[");
                reveal_strlit("\u{8}\u{8}]");
                assert(rv.take(rv.len() as int) =~= rv);
                assert(s@ =~= header + ranges_block_text(self@.ranges));
            }
        }
        proof {
            assert(s@ =~= constraint_text(self@));
        }
        s
    }
}

} // verus!
