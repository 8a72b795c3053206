use vstd::prelude::*;
use crate::error::Error;

verus! {

/// Authorization evidence for one invocation.
///
/// The host authenticates callers (signatures, session, ...) and hands the
/// engine the set of principal identities the caller has proven control of.
/// Every state-mutating operation checks the principal it acts for against
/// this evidence before reading any state.
pub struct Auth {
    /// Identities the caller has authenticated as during this invocation.
    pub signers: Vec<u64>,
}

impl Auth {
    /// The caller may act as `principal`.
    pub open spec fn allows(self, principal: u64) -> bool {
        self.signers@.contains(principal)
    }

    /// Checks that the caller may act as `principal`.
    pub fn authorize(&self, principal: u64) -> (r: Result<(), Error>)
        ensures
            r is Ok <==> self.allows(principal),
            r matches Err(e) ==> e == Error::Unauthorized,
    {
        let mut i: usize = 0;
        while i < self.signers.len()
            invariant
                i <= self.signers.len(),
                forall|j: int| 0 <= j < i ==> self.signers@[j] != principal,
            decreases self.signers.len() - i,
        {
            if self.signers[i] == principal {
                return Ok(());
            }
            i = i + 1;
        }
        Err(Error::Unauthorized)
    }
}

} // verus!
