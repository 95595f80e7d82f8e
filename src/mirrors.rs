use vstd::prelude::*;
use crate::order::{is_sorted_by_name, lemma_sort_by_name_is_sorted, sort_by_name, sort_by_name_exec, Named};

verus! {

/// A mirror of free software that the association hosts or knows of.
pub struct Mirror {
    pub name: String,
    pub url: String,
    pub operator: String,
}

impl Named for Mirror {
    open spec fn name_spec(&self) -> Seq<char> {
        self.name@
    }

    fn name_str(&self) -> (r: &str) {
        self.name.as_str()
    }
}

impl Mirror {
    /// A copy of this entry.
    pub fn duplicate(&self) -> (r: Mirror)
        ensures
            r == *self,
    {
        Mirror { name: self.name.clone(), url: self.url.clone(), operator: self.operator.clone() }
    }
}

/// The mirrors, sorted by name.
pub struct Mirrors {
    mirrors: Vec<Mirror>,
}

impl Mirrors {
    pub closed spec fn mirrors_spec(&self) -> Seq<Mirror> {
        self.mirrors@
    }

    /// The list sorted by name; mirrors of equal name keep their order.
    pub fn new(mirrors: Vec<Mirror>) -> (r: Mirrors)
        ensures
            r.mirrors_spec() == sort_by_name(mirrors@),
            is_sorted_by_name(r.mirrors_spec()),
    {
        proof {
            lemma_sort_by_name_is_sorted(mirrors@);
        }
        Mirrors { mirrors: sort_by_name_exec(mirrors) }
    }

    /// A copy of the list.
    pub fn mirrors(&self) -> (r: Vec<Mirror>)
        ensures
            r@ == self.mirrors_spec(),
    {
        let mut r: Vec<Mirror> = Vec::new();
        let mut i: usize = 0;
        while i < self.mirrors.len()
            invariant
                i <= self.mirrors@.len(),
                r@ == self.mirrors@.take(i as int),
            decreases self.mirrors.len() - i,
        {
            r.push(self.mirrors[i].duplicate());
            assert(r@ =~= self.mirrors@.take(i + 1));
            i = i + 1;
        }
        assert(self.mirrors@.take(i as int) =~= self.mirrors@);
        r
    }
}

} // verus!
