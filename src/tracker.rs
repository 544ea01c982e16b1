//! The set of image names whose points are already in the index.
use vstd::prelude::*;

verus! {

/// Names committed to the index during this process's lifetime.
///
/// Membership only grows: there is no removal.
pub struct Tracker {
    names: Vec<String>,
}

impl View for Tracker {
    type V = Set<Seq<char>>;

    closed spec fn view(&self) -> Set<Seq<char>> {
        Set::new(|n: Seq<char>| exists|i: int| 0 <= i < self.names@.len() && #[trigger] self.names@[i]@ == n)
    }
}

impl Tracker {
    /// A tracker with nothing committed.
    pub fn new() -> (r: Tracker)
        ensures
            r@ == Set::<Seq<char>>::empty(),
    {
        let r = Tracker { names: Vec::new() };
        assert(r@ =~= Set::<Seq<char>>::empty());
        r
    }

    /// Whether `name` has been committed.
    pub fn is_committed(&self, name: &String) -> (r: bool)
        ensures
            r == self@.contains(name@),
    {
        let mut i: usize = 0;
        while i < self.names.len()
            invariant
                i <= self.names@.len(),
                forall|j: int| 0 <= j < i ==> self.names@[j]@ != name@,
            decreases self.names@.len() - i,
        {
            if self.names[i] == *name {
                return true;
            }
            i = i + 1;
        }
        false
    }

    /// Records `name` as committed.
    pub fn mark_committed(&mut self, name: String)
        ensures
            final(self)@ == old(self)@.insert(name@),
    {
        let ghost n = name@;
        self.names.push(name);
        assert forall|m: Seq<char>| #[trigger] final(self)@.contains(m) == old(self)@.insert(n).contains(m) by {
            if m == n {
                assert(self.names@[self.names@.len() - 1]@ == n);
            }
            if old(self)@.contains(m) {
                let i = choose|i: int| 0 <= i < old(self).names@.len() && #[trigger] old(self).names@[i]@ == m;
                assert(self.names@[i]@ == m);
            }
        }
        assert(final(self)@ =~= old(self)@.insert(n));
    }
}

} // verus!
