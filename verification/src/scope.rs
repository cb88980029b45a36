//! The variable scope: a mapping from variable name to its currently known
//! constraint during one resolution run.  Created empty, mutated in place by
//! assignment and assertion statements, and returned when the run succeeds.

use vstd::prelude::*;
use crate::ast::{Constraint, ConstraintV, Id};

verus! {

/// The mapping that a sequence of scope entries denotes: later entries win,
/// though a well-formed scope never holds a key twice.
pub open spec fn entries_map(s: Seq<(Id, Constraint)>) -> Map<Seq<char>, ConstraintV>
    decreases s.len(),
{
    if s.len() == 0 {
        Map::empty()
    } else {
        entries_map(s.drop_last()).insert(s.last().0@, s.last().1@)
    }
}

/// No variable name occurs twice among the entries.
pub open spec fn unique_keys(s: Seq<(Id, Constraint)>) -> bool {
    forall|i: int, j: int| 0 <= i < j < s.len() ==> s[i].0@ != s[j].0@
}

proof fn lemma_map_of_index(s: Seq<(Id, Constraint)>, i: int)
    requires
        unique_keys(s),
        0 <= i < s.len(),
    ensures
        entries_map(s).contains_key(s[i].0@),
        entries_map(s)[s[i].0@] == s[i].1@,
    decreases s.len(),
{
    if i < s.len() - 1 {
        lemma_map_of_index(s.drop_last(), i);
        assert(s.drop_last()[i] == s[i]);
        assert(s[i].0@ != s.last().0@);
    }
}

proof fn lemma_map_absent(s: Seq<(Id, Constraint)>, k: Seq<char>)
    requires
        forall|i: int| 0 <= i < s.len() ==> s[i].0@ != k,
    ensures
        !entries_map(s).contains_key(k),
    decreases s.len(),
{
    if s.len() > 0 {
        lemma_map_absent(s.drop_last(), k);
    }
}

proof fn lemma_map_update(s: Seq<(Id, Constraint)>, i: int, id: Id, c: Constraint)
    requires
        unique_keys(s),
        0 <= i < s.len(),
        id@ == s[i].0@,
    ensures
        entries_map(s.update(i, (id, c))) == entries_map(s).insert(id@, c@),
        unique_keys(s.update(i, (id, c))),
    decreases s.len(),
{
    let s2 = s.update(i, (id, c));
    assert(forall|j: int| 0 <= j < s.len() ==> s2[j].0@ == s[j].0@);
    if i == s.len() - 1 {
        assert(s2.drop_last() =~= s.drop_last());
        assert(entries_map(s2) =~= entries_map(s).insert(id@, c@));
    } else {
        lemma_map_update(s.drop_last(), i, id, c);
        assert(s2.drop_last() =~= s.drop_last().update(i, (id, c)));
        assert(s2.last() == s.last());
        assert(id@ != s.last().0@);
        assert(entries_map(s2) =~= entries_map(s).insert(id@, c@));
    }
}

/// The scope.  Internally an association list whose keys are unique; its
/// mathematical value is the finite map from names to constraint values.
#[derive(Debug)]
pub struct Scope {
    entries: Vec<(Id, Constraint)>,
}

impl View for Scope {
    type V = Map<Seq<char>, ConstraintV>;

    closed spec fn view(&self) -> Map<Seq<char>, ConstraintV> {
        entries_map(self.entries@)
    }
}

impl Scope {
    /// Well-formedness: no variable is bound twice.
    pub closed spec fn wf(&self) -> bool {
        unique_keys(self.entries@)
    }

    /// The empty scope.
    pub fn new() -> (s: Scope)
        ensures
            s.wf(),
            s@ == Map::<Seq<char>, ConstraintV>::empty(),
    {
        Scope { entries: Vec::new() }
    }

    /// The constraint currently bound to `id`, if any.
    pub fn get(&self, id: &str) -> (r: Option<&Constraint>)
        requires
            self.wf(),
        ensures
            match r {
                Some(c) => self@.contains_key(id@) && c@ == self@[id@],
                None => !self@.contains_key(id@),
            },
    {
        let key: String = id.to_owned();
        let mut i: usize = 0;
        while i < self.entries.len()
            invariant
                i <= self.entries.len(),
                self.wf(),
                key@ == id@,
                forall|k: int| 0 <= k < i ==> self.entries@[k].0@ != id@,
            decreases self.entries.len() - i,
        {
            if self.entries[i].0 == key {
                proof {
                    lemma_map_of_index(self.entries@, i as int);
                }
                return Some(&self.entries[i].1);
            }
            i += 1;
        }
        proof {
            lemma_map_absent(self.entries@, id@);
        }
        None
    }

    /// Binds `c` to `id`, overwriting any prior binding.
    pub fn set(&mut self, id: Id, c: Constraint)
        requires
            old(self).wf(),
        ensures
            final(self).wf(),
            final(self)@ == old(self)@.insert(id@, c@),
    {
        let mut i: usize = 0;
        while i < self.entries.len()
            invariant
                i <= self.entries.len(),
                *self == *old(self),
                self.wf(),
                forall|k: int| 0 <= k < i ==> self.entries@[k].0@ != id@,
            decreases self.entries.len() - i,
        {
            if self.entries[i].0 == id {
                proof {
                    lemma_map_update(self.entries@, i as int, id, c);
                }
                self.entries[i] = (id, c);
                return;
            }
            i += 1;
        }
        proof {
            let s2 = self.entries@.push((id, c));
            assert(s2.drop_last() =~= self.entries@);
            assert(forall|a: int, b: int| 0 <= a < b < s2.len() ==> s2[a].0@ != s2[b].0@);
        }
        self.entries.push((id, c));
    }
}

} // verus!
