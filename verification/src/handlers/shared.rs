//! The steps that transitions are made of, and how they are run.

use crate::authority::AuthorityToken;
use crate::error::ErrorCode;
use crate::ledger::Ledger;
use crate::model::{LedgerCall, LedgerView};
use crate::pubkey::Pubkey;
use vstd::prelude::*;

verus! {

/// Who authorizes a step of a transition.
#[derive(Clone, Copy, Debug, PartialEq, Eq, Structural)]
pub enum SignedBy {
    /// The offer, through the keyless identity that its seeds derive.
    Offer,
    /// The party that signed the request.
    Caller,
}

/// One step of a transition: a call on the ledger, who authorizes it, and the
/// failure that the transition reports where the ledger rejects the call.
#[derive(Clone, Copy, Debug, PartialEq, Eq)]
pub struct Step {
    pub call: LedgerCall,
    pub signed_by: SignedBy,
    pub failure: ErrorCode,
}

/// The identity that authorizes a step, where `offer` is the identity that
/// the offer's seeds derive and `caller` the party that signed the request.
pub open spec fn authority_of(signed_by: SignedBy, offer: Pubkey, caller: Pubkey) -> Pubkey {
    match signed_by {
        SignedBy::Offer => offer,
        SignedBy::Caller => caller,
    }
}

/// The ledger after the steps, made one after the other, or the failure of
/// the first step that the ledger rejects.
pub open spec fn run(ledger: LedgerView, steps: Seq<Step>, offer: Pubkey, caller: Pubkey) -> Result<
    LedgerView,
    ErrorCode,
>
    decreases steps.len(),
{
    if steps.len() == 0 {
        Ok(ledger)
    } else {
        match ledger.perform(steps[0].call, authority_of(steps[0].signed_by, offer, caller)) {
            Err(_) => Err(steps[0].failure),
            Ok(next) => run(next, steps.drop_first(), offer, caller),
        }
    }
}

/// Makes the steps on the ledger, one after the other, and stops at the first
/// that the ledger rejects, with the failure of that step. The steps made
/// before it stay made: a caller that wants all or nothing runs them on a
/// copy.
pub(crate) fn run_steps(
    ledger: &mut Ledger,
    steps: &Vec<Step>,
    offer: &AuthorityToken,
    caller: &AuthorityToken,
) -> (result: Result<(), ErrorCode>)
    requires
        old(ledger).wf(),
    ensures
        final(ledger).wf(),
        match run(old(ledger)@, steps@, offer@, caller@) {
            Ok(after) => result is Ok && final(ledger)@ == after,
            Err(code) => result == Err::<(), ErrorCode>(code),
        },
{
    let mut i: usize = 0;
    assert(steps@.skip(0) =~= steps@);
    while i < steps.len()
        invariant
            i <= steps@.len(),
            ledger.wf(),
            run(old(ledger)@, steps@, offer@, caller@) == run(
                ledger@,
                steps@.skip(i as int),
                offer@,
                caller@,
            ),
        decreases steps@.len() - i,
    {
        let step = &steps[i];
        assert(steps@.skip(i as int)[0] == steps@[i as int]);
        assert(steps@.skip(i as int).drop_first() =~= steps@.skip(i + 1));
        let made = match step.signed_by {
            SignedBy::Offer => ledger.perform(&step.call, offer),
            SignedBy::Caller => ledger.perform(&step.call, caller),
        };
        match made {
            Ok(()) => {},
            Err(_) => {
                return Err(step.failure);
            },
        }
        i += 1;
    }
    Ok(())
}

} // verus!
