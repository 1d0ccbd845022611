use vstd::prelude::*;

use crate::idmap::IdMap;

verus! {

/// A set of `String` identifiers, abstracted as a set of character
/// sequences. Holds the root-item set: the identifiers of folders and notes
/// with no parent.
pub struct StrSet {
    m: IdMap<bool>,
}

impl View for StrSet {
    type V = Set<Seq<char>>;

    closed spec fn view(&self) -> Set<Seq<char>> {
        self.m@.dom()
    }
}

impl StrSet {
    pub closed spec fn wf(self) -> bool {
        self.m.wf()
    }

    pub fn new() -> (r: StrSet)
        ensures
            r.wf(),
            r@ =~= Set::<Seq<char>>::empty(),
    {
        StrSet { m: IdMap::new() }
    }

    pub fn contains(&self, k: &String) -> (r: bool)
        ensures
            r == self@.contains(k@),
    {
        self.m.contains_key(k)
    }

    pub fn insert(&mut self, k: String)
        requires
            old(self).wf(),
        ensures
            final(self).wf(),
            final(self)@ =~= old(self)@.insert(k@),
    {
        self.m.insert(k, true);
    }

    pub fn remove(&mut self, k: &String)
        requires
            old(self).wf(),
        ensures
            final(self).wf(),
            final(self)@ =~= old(self)@.remove(k@),
    {
        let r = self.m.remove(k);
        proof {
            if r is None {
                assert(old(self)@.remove(k@) =~= old(self)@);
            }
        }
    }
}

} // verus!
