use vstd::prelude::*;

verus! {

/// A finite set of object names, kept as a vector without repeated names.
///
/// Its view is the mathematical set of the names it holds.
pub struct CandidateSet {
    names: Vec<String>,
}

impl View for CandidateSet {
    type V = Set<Seq<char>>;

    closed spec fn view(&self) -> Set<Seq<char>> {
        Set::new(|n: Seq<char>| exists|i: int| 0 <= i < self.names.len() && #[trigger] self.names@[i]@ == n)
    }
}

impl CandidateSet {
    /// The empty set.
    pub fn new() -> (r: CandidateSet)
        ensures
            r@ == Set::<Seq<char>>::empty(),
    {
        let r = CandidateSet { names: Vec::new() };
        assert(r@ =~= Set::<Seq<char>>::empty());
        r
    }

    /// Position of `name` in the backing vector, if it is there.
    fn position(&self, name: &String) -> (r: Option<usize>)
        ensures
            match r {
                Some(i) => i < self.names.len() && self.names@[i as int]@ == name@,
                None => !self@.contains(name@),
            },
    {
        let mut i: usize = 0;
        while i < self.names.len()
            invariant
                i <= self.names.len(),
                forall|j: int| 0 <= j < i ==> self.names@[j]@ != name@,
            decreases self.names.len() - i,
        {
            if self.names[i] == *name {
                return Some(i);
            }
            i = i + 1;
        }
        None
    }

    /// Whether `name` is a member.
    pub fn contains(&self, name: &str) -> (r: bool)
        ensures
            r == self@.contains(name@),
    {
        let owned = name.to_owned();
        self.position(&owned).is_some()
    }

    /// Adds `name`; adding a member again changes nothing.
    pub fn insert(&mut self, name: String)
        ensures
            final(self)@ == old(self)@.insert(name@),
    {
        if self.position(&name).is_some() {
            assert(old(self)@.insert(name@) =~= old(self)@);
        } else {
            let ghost before = self.names@;
            self.names.push(name);
            assert(self@ =~= old(self)@.insert(name@)) by {
                assert(self.names@[before.len() as int] == name);
                assert forall|n: Seq<char>| self@.contains(n) implies old(self)@.insert(name@).contains(n) by {
                    let i = choose|i: int| 0 <= i < self.names.len() && #[trigger] self.names@[i]@ == n;
                    if i < before.len() {
                        assert(before[i]@ == n);
                    }
                }
                assert forall|n: Seq<char>| old(self)@.insert(name@).contains(n) implies self@.contains(n) by {
                    if n != name@ {
                        let i = choose|i: int| 0 <= i < before.len() && #[trigger] before[i]@ == n;
                        assert(self.names@[i]@ == n);
                    }
                }
            }
        }
    }

    /// Removes `name`; removing a name that is not a member is a no-op.
    pub fn remove(&mut self, name: &str)
        ensures
            final(self)@ == old(self)@.remove(name@),
    {
        let owned = name.to_owned();
        loop
            invariant
                owned@ == name@,
                self@.remove(name@) == old(self)@.remove(name@),
            ensures
                self@ == old(self)@.remove(name@),
            decreases self.names.len(),
        {
            match self.position(&owned) {
                Some(k) => {
                    let ghost before = *self;
                    self.names.remove(k);
                    assert(self@.remove(name@) =~= before@.remove(name@)) by {
                        assert forall|n: Seq<char>| #[trigger] self@.contains(n) implies before@.contains(n) by {
                            let i = choose|i: int| 0 <= i < self.names.len() && #[trigger] self.names@[i]@ == n;
                            if i < k {
                                assert(before.names@[i]@ == n);
                            } else {
                                assert(before.names@[i + 1]@ == n);
                            }
                        }
                        assert forall|n: Seq<char>| n != name@ && #[trigger] before@.contains(n) implies self@.contains(n) by {
                            let i = choose|i: int| 0 <= i < before.names.len() && #[trigger] before.names@[i]@ == n;
                            if i < k {
                                assert(self.names@[i]@ == n);
                            } else {
                                assert(self.names@[i - 1]@ == n);
                            }
                        }
                    }
                },
                None => {
                    assert(self@ =~= self@.remove(name@));
                    break;
                },
            }
        }
    }

    /// The members, in no particular order.
    pub fn names(&self) -> (r: Vec<String>)
        ensures
            forall|n: Seq<char>| self@.contains(n) <==> exists|i: int| 0 <= i < r.len() && #[trigger] r@[i]@ == n,
    {
        let mut r: Vec<String> = Vec::new();
        let mut i: usize = 0;
        while i < self.names.len()
            invariant
                i <= self.names.len(),
                r.len() == i,
                forall|j: int| 0 <= j < i ==> r@[j] == self.names@[j],
            decreases self.names.len() - i,
        {
            r.push(self.names[i].clone());
            i = i + 1;
        }
        assert(r@ =~= self.names@);
        r
    }
}

} // verus!
