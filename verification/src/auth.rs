//! The authorization context handed to every mutating operation.
//!
//! The host proves which principals authorized the current invocation; this
//! crate only consumes that proof.  An [`AuthContext`] lists the authorized
//! principals, and an operation that acts on behalf of principal `p`
//! demands `allows(p)` before touching any state.

use vstd::prelude::*;
use crate::address::Address;

verus! {

/// The set of principals that authorized the current call.
pub struct AuthContext {
    pub authorized: Vec<Address>,
}

impl AuthContext {
    /// Does this context carry an authorization by `a`?
    pub open spec fn allows_spec(self, a: Address) -> bool {
        self.authorized@.contains(a)
    }

    /// A context in which nobody has authorized anything.
    pub fn empty() -> (r: AuthContext)
        ensures
            forall|a: Address| !r.allows_spec(a),
    {
        AuthContext { authorized: Vec::new() }
    }

    /// A context in which exactly `a` has authorized the call.
    pub fn single(a: Address) -> (r: AuthContext)
        ensures
            forall|b: Address| r.allows_spec(b) <==> b == a,
    {
        let mut v: Vec<Address> = Vec::new();
        v.push(a);
        proof {
            assert(v@[0] == a);
            assert forall|b: Address| v@.contains(b) implies b == a by {
                let i = choose|i: int| 0 <= i < v@.len() && v@[i] == b;
            }
        }
        AuthContext { authorized: v }
    }

    /// Records that `a` has authorized the call.
    pub fn authorize(&mut self, a: Address)
        ensures
            final(self).authorized@ == old(self).authorized@.push(a),
            forall|b: Address| final(self).allows_spec(b) <==> old(self).allows_spec(b) || b == a,
    {
        let ghost s_old = self.authorized@;
        self.authorized.push(a);
        proof {
            let s_new = self.authorized@;
            assert forall|b: Address| s_new.contains(b) implies s_old.contains(b) || b == a by {
                let i = choose|i: int| 0 <= i < s_new.len() && s_new[i] == b;
                if i < s_old.len() {
                    assert(s_old[i] == b);
                }
            }
            assert forall|b: Address| s_old.contains(b) || b == a implies s_new.contains(b) by {
                if s_old.contains(b) {
                    let i = choose|i: int| 0 <= i < s_old.len() && s_old[i] == b;
                    assert(s_new[i] == b);
                } else {
                    assert(s_new[s_old.len() as int] == a);
                }
            }
        }
    }

    /// Whether `a` authorized the call.
    pub fn allows(&self, a: &Address) -> (r: bool)
        ensures
            r == self.allows_spec(*a),
    {
        let n = self.authorized.len();
        let mut i: usize = 0;
        while i < n
            invariant
                i <= n,
                n == self.authorized@.len(),
                forall|j: int| 0 <= j < i ==> self.authorized@[j] != *a,
            decreases n - i,
        {
            if self.authorized[i] == *a {
                return true;
            }
            i = i + 1;
        }
        false
    }
}

} // verus!
