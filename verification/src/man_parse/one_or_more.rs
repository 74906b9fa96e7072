//! A value that is one item or a list of items.
use vstd::prelude::*;

verus! {

/// One item, or many.
#[derive(Clone, PartialEq, PartialOrd, Eq, Ord, Debug, Hash)]
pub enum OneOrMany<T> {
    One(T),
    Many(Vec<T>),
}

/// A cursor over the items of a [`OneOrMany::Many`].
pub struct Iter<'a, T> {
    items: &'a Vec<T>,
    index: usize,
}

impl<'a, T> Iter<'a, T> {
    #[verifier::type_invariant]
    spec fn within(self) -> bool {
        self.index <= self.items@.len()
    }

    /// The items that are still to come.
    pub closed spec fn remaining(&self) -> Seq<T> {
        self.items@.skip(self.index as int)
    }

    /// The next item, if there is one.
    pub fn next(&mut self) -> (item: Option<&'a T>)
        ensures
            old(self).remaining().len() == 0 ==> item is None && final(self).remaining() == old(
                self,
            ).remaining(),
            old(self).remaining().len() > 0 ==> item == Some(&old(self).remaining()[0])
                && final(self).remaining() == old(self).remaining().drop_first(),
    {
        proof {
            use_type_invariant(&*self);
        }
        if self.index >= self.items.len() {
            return None;
        }
        let item = &self.items[self.index];
        self.index += 1;
        assert(self.remaining() =~= old(self).remaining().drop_first());
        Some(item)
    }
}

impl<T> OneOrMany<T> {
    /// Tells whether this is one item.
    pub fn is_one(&self) -> (one: bool)
        ensures
            one == (self is One),
    {
        match *self {
            OneOrMany::One(_) => true,
            _ => false,
        }
    }

    /// Tells whether this is a list of items.
    pub fn is_many(&self) -> (many: bool)
        ensures
            many == (self is Many),
    {
        !self.is_one()
    }

    /// A cursor over the items of a list, before the first one.
    pub fn iter(&self) -> (iter: Iter<'_, T>)
        requires
            self is Many,
        ensures
            iter.remaining() == self->Many_0@,
    {
        match self {
            OneOrMany::Many(items) => {
                assert(items@.skip(0) =~= items@);
                Iter { items, index: 0 }
            },
            OneOrMany::One(_) => {
                vstd::pervasive::unreached()
            },
        }
    }
}

} // verus!
