use vstd::prelude::*;

use crate::color::Color;

verus! {

/// A set of army colors.
#[derive(Debug, PartialEq)]
pub struct ColorSet {
    present: Vec<bool>,
}

impl View for ColorSet {
    type V = Set<Color>;

    closed spec fn view(&self) -> Set<Color> {
        Set::new(|c: Color| self.has(c))
    }
}

impl ColorSet {
    /// The set holds one slot per color.
    pub closed spec fn wf(self) -> bool {
        self.present@.len() == 12
    }

    /// Whether the set holds the color.
    pub closed spec fn has(self, c: Color) -> bool {
        self.wf() && self.present@[c.as_int()]
    }

    /// The view contains exactly the colors the set holds.
    pub proof fn lemma_view(self)
        ensures
            forall|c: Color| self@.contains(c) == self.has(c),
    {
        assert forall|c: Color| self@.contains(c) == self.has(c) by {
            assert(Set::new(|x: Color| self.has(x)).contains(c) == self.has(c));
        }
    }

    /// The empty set.
    pub fn new() -> (r: Self)
        ensures
            r.wf(),
            forall|c: Color| !r.has(c),
    {
        let mut present: Vec<bool> = Vec::new();
        let mut k: usize = 0;
        while k < 12
            invariant
                present@.len() == k,
                k <= 12,
                forall|j: int| 0 <= j < k ==> !present@[j],
            decreases 12 - k,
        {
            present.push(false);
            k += 1;
        }
        ColorSet { present }
    }

    pub fn insert(&mut self, c: Color)
        requires
            old(self).wf(),
        ensures
            final(self).wf(),
            forall|x: Color| final(self).has(x) == (old(self).has(x) || x == c),
    {
        let k = c.to_index();
        self.present[k] = true;
        proof {
            assert forall|x: Color| final(self).has(x) == (old(self).has(x) || x == c) by {
                if x.as_int() == c.as_int() {
                    assert(x == c);
                }
            }
        }
    }

    pub fn remove(&mut self, c: Color)
        requires
            old(self).wf(),
        ensures
            final(self).wf(),
            forall|x: Color| final(self).has(x) == (old(self).has(x) && x != c),
    {
        let k = c.to_index();
        self.present[k] = false;
        proof {
            assert forall|x: Color| final(self).has(x) == (old(self).has(x) && x != c) by {
                if x.as_int() == c.as_int() {
                    assert(x == c);
                }
            }
        }
    }

    pub fn contains(&self, c: &Color) -> (r: bool)
        requires
            self.wf(),
        ensures
            r == self.has(*c),
    {
        let k = c.to_index();
        self.present[k]
    }

    pub fn is_empty(&self) -> (r: bool)
        requires
            self.wf(),
        ensures
            r == (forall|c: Color| !self.has(c)),
    {
        let mut k: usize = 0;
        while k < 12
            invariant
                self.wf(),
                k <= 12,
                forall|c: Color| c.as_int() < k ==> !self.has(c),
            decreases 12 - k,
        {
            if self.present[k] {
                let c = Color::from_index(k);
                proof {
                    assert(self.has(c));
                }
                return false;
            }
            proof {
                assert forall|c: Color| c.as_int() < k + 1 implies !self.has(c) by {
                    if c.as_int() == k {
                        assert(!self.present@[k as int]);
                    }
                }
            }
            k += 1;
        }
        true
    }

    /// An equal copy of the set.
    pub fn duplicate(&self) -> (r: Self)
        requires
            self.wf(),
        ensures
            r.wf(),
            forall|c: Color| r.has(c) == self.has(c),
    {
        let mut present: Vec<bool> = Vec::new();
        let mut k: usize = 0;
        while k < 12
            invariant
                self.wf(),
                present@.len() == k,
                k <= 12,
                forall|j: int| 0 <= j < k ==> present@[j] == self.present@[j],
            decreases 12 - k,
        {
            present.push(self.present[k]);
            k += 1;
        }
        ColorSet { present }
    }
}

} // verus!
