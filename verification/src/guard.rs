//! Who may issue which instruction.

use vstd::prelude::*;
use crate::error::LedgerError;
use crate::identity::{contains_identity, keys_of, Identity};
use crate::instruction::{Instruction, InstructionView};

verus! {

/// Whether `caller` may issue `instruction` on the account of `target`,
/// given the credentials of the administrators.
///
/// Registration is open to everyone. A community credit takes an
/// administrator's credential. Every other instruction acts on the
/// caller's own account, so the caller's credential must be the target
/// identity.
pub open spec fn authorized(
    admins: Set<Seq<u8>>,
    caller: Seq<u8>,
    target: Seq<u8>,
    instruction: InstructionView,
) -> bool {
    match instruction {
        InstructionView::Initialize => true,
        InstructionView::CommunityCredit { .. } => admins.contains(caller),
        _ => caller == target,
    }
}

/// Checks credentials against a set of administrators that is fixed when
/// the guard is made.
#[derive(Debug)]
pub struct AuthorizationGuard {
    admins: Vec<Identity>,
}

impl AuthorizationGuard {
    /// The credentials that count as administrators.
    pub closed spec fn admins(&self) -> Set<Seq<u8>> {
        keys_of(self.admins@).to_set()
    }

    /// A guard that accepts exactly `admins` as administrators.
    pub fn new(admins: Vec<Identity>) -> (r: AuthorizationGuard)
        ensures
            r.admins() == keys_of(admins@).to_set(),
    {
        AuthorizationGuard { admins }
    }

    /// Whether `credential` is an administrator's.
    pub fn is_admin(&self, credential: &Identity) -> (r: bool)
        ensures
            r == self.admins().contains(credential@),
    {
        contains_identity(&self.admins, credential)
    }

    /// Decides whether `caller` may issue `instruction` on the account of
    /// `target`; fails with `Unauthorized` when it may not.
    pub fn authorize(&self, caller: &Identity, target: &Identity, instruction: &Instruction) -> (r:
        Result<(), LedgerError>)
        ensures
            r is Ok <==> authorized(self.admins(), caller@, target@, instruction@),
            r is Err ==> r == Err::<(), LedgerError>(LedgerError::Unauthorized),
    {
        let allowed = match instruction {
            Instruction::Initialize => true,
            Instruction::CommunityCredit { .. } => self.is_admin(caller),
            _ => caller.same(target),
        };
        if allowed {
            Ok(())
        } else {
            Err(LedgerError::Unauthorized)
        }
    }
}

} // verus!
