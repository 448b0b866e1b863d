//! A two-party token escrow: a maker locks one asset under a keyless custody
//! authority and asks for a quantity of another; a taker fulfills the offer, or
//! the maker cancels it.

pub mod address;
pub mod authority;
pub mod custody;
pub mod instructions;
pub mod laws;
pub mod ledger;
pub mod record;
pub mod steps;

use crate::address::Address;
use crate::instructions::make::is_search_result;
use crate::instructions::make::Make;
use crate::instructions::refund::Refund;
use crate::instructions::take::Take;
use crate::ledger::Ledger;
use crate::record::EscrowError;
use vstd::prelude::*;

verus! {

/// The create request: opens the escrow of the maker and `seed`, asking for
/// `receive` of the second asset, and locks `amount` of the first in custody.
pub fn make(ledger: &mut Ledger, accounts: &Make, seed: u64, receive: u64, amount: u64) -> (r:
    Result<(), EscrowError>)
    requires
        old(ledger).wf(),
    ensures
        final(ledger).wf(),
        exists|found: Option<(Address, u8)>|
            is_search_result(found, accounts.maker@, seed, old(ledger).program_id@)
                && #[trigger] accounts.outcome(
                old(ledger),
                final(ledger),
                seed,
                receive,
                amount,
                found,
                r,
            ),
{
    accounts.handler(ledger, seed, receive, amount)
}

/// The fulfill request: the taker pays what the record asks for and receives
/// what custody holds; custody and the record are closed.
pub fn take(ledger: &mut Ledger, accounts: &Take) -> (r: Result<(), EscrowError>)
    requires
        old(ledger).wf(),
        accounts.has_room(old(ledger)),
    ensures
        r == match accounts.check(old(ledger)) {
            Some(e) => Err::<(), EscrowError>(e),
            None => Ok::<(), EscrowError>(()),
        },
        r is Err ==> *final(ledger) == *old(ledger),
        r is Ok ==> accounts.settled(old(ledger), final(ledger)),
{
    accounts.handler(ledger)
}

/// The cancel request: the maker receives what custody holds; custody and the
/// record are closed.
pub fn refund(ledger: &mut Ledger, accounts: &Refund) -> (r: Result<(), EscrowError>)
    requires
        old(ledger).wf(),
        accounts.has_room(old(ledger)),
    ensures
        r == match accounts.check(old(ledger)) {
            Some(e) => Err::<(), EscrowError>(e),
            None => Ok::<(), EscrowError>(()),
        },
        r is Err ==> *final(ledger) == *old(ledger),
        r is Ok ==> accounts.refunded(old(ledger), final(ledger)),
{
    crate::instructions::refund::handler(ledger, accounts)
}

} // verus!
