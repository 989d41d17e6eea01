//! Absolute filesystem paths as sequences of name components. The root
//! directory has no components; each component is a raw byte string. An
//! `AbsPath` with no components also serves as the "nothing selected"
//! placeholder a panel hands out when its listing is empty.

use vstd::prelude::*;

use crate::bytes::bytes_clone;
use crate::bytes::bytes_eq;

verus! {

/// For byte vectors the deep view and the plain view coincide.
pub proof fn lemma_bytes_deep_view(b: Vec<u8>)
    ensures
        b.deep_view() == b@,
{
    assert(b.deep_view() =~= b@);
}

/// An absolute path, stored as its name components below the root.
#[derive(Debug)]
pub struct AbsPath {
    pub components: Vec<Vec<u8>>,
}

impl View for AbsPath {
    type V = Seq<Seq<u8>>;

    open spec fn view(&self) -> Seq<Seq<u8>> {
        self.components.deep_view()
    }
}

impl Clone for AbsPath {
    /// The copy denotes the same path.
    fn clone(&self) -> (r: Self)
        ensures
            r@ == self@,
    {
        let mut comps: Vec<Vec<u8>> = Vec::new();
        let n: usize = self.components.len();
        let mut i: usize = 0;
        while i < n
            invariant
                n == self.components.len(),
                i <= n,
                comps@.len() == i,
                forall|k: int| 0 <= k < i ==> #[trigger] comps.deep_view()[k] == self@[k],
            decreases n - i,
        {
            let c = bytes_clone(&self.components[i]);
            proof {
                lemma_bytes_deep_view(c);
                lemma_bytes_deep_view(self.components@[i as int]);
                assert(c.deep_view() == self@[i as int]);
            }
            let ghost oldc = comps@;
            let ghost old_dv = comps.deep_view();
            comps.push(c);
            proof {
                assert forall|k: int| 0 <= k < i + 1 implies #[trigger] comps.deep_view()[k]
                    == self@[k] by {
                    assert(comps.deep_view()[k] == comps@[k].deep_view());
                    if k < i {
                        assert(comps@[k] == oldc[k]);
                        assert(old_dv[k] == oldc[k].deep_view());
                    } else {
                        assert(comps@[k] == c);
                    }
                }
            }
            i = i + 1;
        }
        let r = AbsPath { components: comps };
        assert(r@ =~~= self@);
        r
    }
}

impl AbsPath {
    /// The root path, and likewise the empty "no selection" placeholder.
    pub fn empty() -> (r: Self)
        ensures
            r@ == Seq::<Seq<u8>>::empty(),
    {
        let r = AbsPath { components: Vec::new() };
        assert(r@ =~~= Seq::<Seq<u8>>::empty());
        r
    }

    /// Number of components below the root.
    pub fn depth(&self) -> (r: usize)
        ensures
            r == self@.len(),
    {
        self.components.len()
    }

    /// Whether this is the root path (or the empty placeholder).
    pub fn is_empty(&self) -> (r: bool)
        ensures
            r == (self@.len() == 0),
    {
        self.components.len() == 0
    }

    /// The component at the given position.
    pub fn component(&self, i: usize) -> (r: &Vec<u8>)
        requires
            i < self@.len(),
        ensures
            r@ == self@[i as int],
    {
        &self.components[i]
    }

    /// Appends one name component.
    pub fn push(&mut self, name: Vec<u8>)
        ensures
            final(self)@ == old(self)@.push(name@),
    {
        self.components.push(name);
        assert(self@ =~~= old(self)@.push(name@));
    }

    /// Removes the last component; at the root it fails and changes nothing.
    pub fn pop(&mut self) -> (r: bool)
        ensures
            r == (old(self)@.len() > 0),
            r ==> final(self)@ == old(self)@.drop_last(),
            !r ==> final(self)@ == old(self)@,
    {
        if self.components.len() == 0 {
            return false;
        }
        self.components.pop();
        assert(self@ =~~= old(self)@.drop_last());
        true
    }

    /// The last component, if any.
    pub fn last_component(&self) -> (r: Option<&Vec<u8>>)
        ensures
            self@.len() == 0 ==> r is None,
            self@.len() > 0 ==> (r matches Some(c) && c@ == self@.last()),
    {
        if self.components.len() == 0 {
            None
        } else {
            Some(&self.components[self.components.len() - 1])
        }
    }

    /// This path followed by one more component, as a new path.
    pub fn child(&self, name: Vec<u8>) -> (r: Self)
        ensures
            r@ == self@.push(name@),
    {
        let mut r = self.clone();
        r.push(name);
        r
    }

    /// The parent path, if this path is not the root.
    pub fn parent(&self) -> (r: Option<Self>)
        ensures
            self@.len() == 0 ==> r is None,
            self@.len() > 0 ==> (r matches Some(p) && p@ == self@.drop_last()),
    {
        if self.components.len() == 0 {
            return None;
        }
        let mut p = self.clone();
        p.pop();
        Some(p)
    }

    /// Whether the two paths have the same components.
    pub fn equals(&self, other: &Self) -> (r: bool)
        ensures
            r == (self@ == other@),
    {
        let n: usize = self.components.len();
        if n != other.components.len() {
            assert(self@.len() != other@.len());
            return false;
        }
        let mut i: usize = 0;
        while i < n
            invariant
                n == self.components.len(),
                n == other.components.len(),
                i <= n,
                forall|k: int| 0 <= k < i ==> self@[k] == other@[k],
            decreases n - i,
        {
            proof {
                lemma_bytes_deep_view(self.components@[i as int]);
                lemma_bytes_deep_view(other.components@[i as int]);
            }
            if !bytes_eq(&self.components[i], &other.components[i]) {
                assert(self@[i as int] != other@[i as int]);
                return false;
            }
            i = i + 1;
        }
        assert(self@ =~~= other@);
        true
    }
}

} // verus!
