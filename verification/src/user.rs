//! The user model the context menu reads: a nickname and the channel
//! access levels the user holds.
use vstd::prelude::*;

verus! {

/// A channel access level a user may hold.
#[derive(Debug, Clone, Copy, PartialEq, Eq, Structural)]
pub enum AccessLevel {
    Owner,
    Admin,
    Oper,
    HalfOp,
    Voice,
}

/// A user of a channel, with the access levels granted there.
#[derive(Debug)]
pub struct User {
    pub nickname: String,
    pub access_levels: Vec<AccessLevel>,
}

impl User {
    /// Whether the user holds the given access level.
    pub open spec fn spec_has_access_level(self, level: AccessLevel) -> bool {
        self.access_levels@.contains(level)
    }

    /// Whether the user holds the given access level.
    #[verifier::loop_isolation(false)]
    pub fn has_access_level(&self, level: AccessLevel) -> (r: bool)
        ensures
            r == self.spec_has_access_level(level),
    {
        let n = self.access_levels.len();
        let mut i: usize = 0;
        while i < n
            invariant
                i <= n,
                forall|t: int| 0 <= t < i ==> self.access_levels@[t] != level,
            decreases n - i,
        {
            if self.access_levels[i] == level {
                return true;
            }
            i += 1;
        }
        false
    }

    /// The user's nickname.
    pub fn nickname(&self) -> (r: &str)
        ensures
            r@ == self.nickname@,
    {
        self.nickname.as_str()
    }
}

} // verus!
