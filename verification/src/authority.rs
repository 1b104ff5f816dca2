//! Who has authorized an invocation, and whose authorization an issuance
//! needs.

use vstd::prelude::*;
use crate::address::Address;

verus! {

/// The identities that have proved, for one invocation, that they stand
/// behind it.
#[derive(Debug)]
pub struct Authorizations {
    signers: Vec<Address>,
}

impl View for Authorizations {
    type V = Set<Address>;

    closed spec fn view(&self) -> Set<Address> {
        self.signers@.to_set()
    }
}

impl Authorizations {
    /// An invocation that nobody has authorized.
    pub fn none() -> (auth: Authorizations)
        ensures
            auth@ == Set::<Address>::empty(),
    {
        let auth = Authorizations { signers: Vec::new() };
        assert(auth@ =~= Set::<Address>::empty());
        auth
    }

    /// An invocation that `signer` alone has authorized.
    pub fn of(signer: Address) -> (auth: Authorizations)
        ensures
            auth@ == Set::<Address>::empty().insert(signer),
    {
        Authorizations::none().and(signer)
    }

    /// The same invocation, authorized by `signer` too.
    pub fn and(self, signer: Address) -> (auth: Authorizations)
        ensures
            auth@ == self@.insert(signer),
    {
        let mut signers = self.signers;
        let ghost before = signers@;
        signers.push(signer);
        let auth = Authorizations { signers };
        proof {
            assert forall|a: Address| auth@.contains(a) == self@.insert(signer).contains(a) by {
                if before.contains(a) {
                    let i = choose|i: int| 0 <= i < before.len() && before[i] == a;
                    assert(auth.signers@[i] == a);
                }
                if a == signer {
                    assert(auth.signers@[before.len() as int] == a);
                }
            }
            assert(auth@ =~= self@.insert(signer));
        }
        auth
    }

    /// Whether `who` has authorized the invocation.
    pub fn authorizes(&self, who: &Address) -> (yes: bool)
        ensures
            yes == self@.contains(*who),
    {
        let mut i: usize = 0;
        while i < self.signers.len()
            invariant
                i <= self.signers.len(),
                forall|j: int| 0 <= j < i ==> self.signers@[j] != *who,
            decreases self.signers.len() - i,
        {
            if self.signers[i] == *who {
                assert(self.signers@.contains(*who));
                return true;
            }
            i += 1;
        }
        false
    }
}

/// The one identity whose authorization an issuance needs: the minter where
/// one is named, the admin where none is.
#[derive(Clone, Copy, Debug, PartialEq, Eq, Structural, Hash)]
pub enum IssuingAuthority {
    /// The delegate that the admin named.
    Minter(Address),
    /// The admin, for want of a delegate.
    Admin(Address),
}

impl IssuingAuthority {
    /// The identity that has to authorize.
    pub open spec fn spec_identity(&self) -> Address {
        match *self {
            IssuingAuthority::Minter(who) => who,
            IssuingAuthority::Admin(who) => who,
        }
    }

    /// The identity that has to authorize.
    #[verifier::when_used_as_spec(spec_identity)]
    pub fn identity(&self) -> (who: Address)
        ensures
            who == self.spec_identity(),
    {
        match self {
            IssuingAuthority::Minter(who) => *who,
            IssuingAuthority::Admin(who) => *who,
        }
    }
}

} // verus!
