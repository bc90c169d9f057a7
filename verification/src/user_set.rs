//! Sets of users: an ordered set of accounts with its length and set difference.
use crate::ordered_set::OrderedSet;
use crate::primitives::AccountId;
use vstd::prelude::*;

verus! {

/// A set of users.
pub type UserSet = OrderedSet;

/// The length and the difference of sets of users.
pub trait UserSetExt: Sized {
    /// The users of the set, in increasing order.
    spec fn users(&self) -> Seq<AccountId>;

    /// The users are strictly increasing.
    spec fn users_wf(&self) -> bool;

    /// The number of users.
    fn len(&self) -> (n: usize)
        ensures
            n == self.users().len(),
    ;

    /// Removes the users of `value`: the set becomes the difference.
    fn sub_set(&mut self, value: &Vec<AccountId>)
        requires
            old(self).users_wf(),
        ensures
            final(self).users_wf(),
            final(self).users().to_set() == old(self).users().to_set().difference(value@.to_set()),
    ;
}

impl UserSetExt for UserSet {
    open spec fn users(&self) -> Seq<AccountId> {
        self@
    }

    open spec fn users_wf(&self) -> bool {
        self.wf()
    }

    fn len(&self) -> (n: usize) {
        OrderedSet::len(self)
    }

    fn sub_set(&mut self, value: &Vec<AccountId>) {
        OrderedSet::sub_set(self, value)
    }
}

} // verus!
