//! Create: the maker opens an escrow and locks the offered asset in custody.

use crate::address::Address;
use crate::authority::find_record_address;
use crate::authority::is_canonical;
use crate::authority::no_canonical;
use crate::authority::record_seeds;
use crate::ledger::at;
use crate::ledger::Ledger;
use crate::record::Escrow;
use crate::record::EscrowError;
use vstd::prelude::*;

verus! {

/// The accounts of a create request.
#[derive(Clone, Copy, Debug, PartialEq, Eq)]
pub struct Make {
    /// The identity that signed the request.
    pub maker: Address,
    /// The address at which the new record is to stand.
    pub escrow: Address,
    /// The asset type that is offered.
    pub mint_a: Address,
    /// The asset type that is asked for.
    pub mint_b: Address,
}

/// Whether `found` is what the search for the record address of `maker` and
/// `seed` gives under `program_id`.
pub open spec fn is_search_result(
    found: Option<(Address, u8)>,
    maker: Seq<u8>,
    seed: u64,
    program_id: Seq<u8>,
) -> bool {
    match found {
        Some((a, bump)) => is_canonical(record_seeds(maker, seed), program_id, a@, bump),
        None => no_canonical(record_seeds(maker, seed), program_id),
    }
}

impl Make {
    /// The error with which the request is rejected on this ledger, if any,
    /// given what the search for the record address found. The address that
    /// the request names must be the one found, and not the maker's own; then
    /// neither a record nor a custody account may stand there yet; last comes
    /// the maker's balance.
    pub open spec fn check(&self, ledger: &Ledger, amount: u64, found: Option<(Address, u8)>) -> Option<
        EscrowError,
    > {
        match found {
            None => Some(EscrowError::AuthorityMismatch),
            Some((a, bump)) => if a@ != self.escrow@ || self.maker@ == self.escrow@ {
                Some(EscrowError::AuthorityMismatch)
            } else if ledger.record_at(self.escrow@) is Some || ledger.holds(
                self.escrow@,
                self.mint_a@,
            ) {
                Some(EscrowError::DuplicateOffer)
            } else if !ledger.holds(self.maker@, self.mint_a@) || ledger.balance(
                self.maker@,
                self.mint_a@,
            ) < amount {
                Some(EscrowError::InsufficientBalance)
            } else {
                None
            },
        }
    }

    /// The record that the request creates.
    pub open spec fn record(&self, seed: u64, receive: u64, bump: u8) -> Escrow {
        Escrow {
            maker: self.maker,
            mint_a: self.mint_a,
            mint_b: self.mint_b,
            seed,
            receive,
            bump,
        }
    }

    /// The ledger after the request was carried out: the record stands at its
    /// address with the request's values, custody holds `amount`, taken from
    /// the maker, and nothing else has changed.
    pub open spec fn opened(
        &self,
        before: &Ledger,
        after: &Ledger,
        seed: u64,
        receive: u64,
        amount: u64,
        bump: u8,
    ) -> bool {
        &&& after.wf()
        &&& after.program_id == before.program_id
        &&& after.reclaims == before.reclaims
        &&& forall|a: Seq<u8>| #[trigger]
            after.record_at(a) == if a == self.escrow@ {
                Some(self.record(seed, receive, bump))
            } else {
                before.record_at(a)
            }
        &&& forall|o: Seq<u8>, m: Seq<u8>| #[trigger]
            after.holds(o, m) == (before.holds(o, m) || (o == self.escrow@ && m == self.mint_a@))
        &&& forall|o: Seq<u8>, m: Seq<u8>| #[trigger]
            after.balance(o, m) == before.balance(o, m) - at(
                o,
                m,
                self.maker@,
                self.mint_a@,
                amount as int,
            ) + at(o, m, self.escrow@, self.mint_a@, amount as int)
    }

    /// What a create request returns and leaves behind, given what the search
    /// for the record address found.
    pub open spec fn outcome(
        &self,
        before: &Ledger,
        after: &Ledger,
        seed: u64,
        receive: u64,
        amount: u64,
        found: Option<(Address, u8)>,
        r: Result<(), EscrowError>,
    ) -> bool {
        match self.check(before, amount, found) {
            Some(e) => r == Err::<(), EscrowError>(e) && *after == *before,
            None => r == Ok::<(), EscrowError>(()) && self.opened(
                before,
                after,
                seed,
                receive,
                amount,
                found.unwrap().1,
            ),
        }
    }

    /// Opens the escrow at the address that the search found: writes the
    /// record, creates the custody account under the record's address and
    /// moves `amount` of the offered asset from the maker into it. A rejected
    /// request changes nothing.
    pub fn open_at(
        &self,
        ledger: &mut Ledger,
        seed: u64,
        receive: u64,
        amount: u64,
        found: Option<(Address, u8)>,
    ) -> (r: Result<(), EscrowError>)
        requires
            old(ledger).wf(),
        ensures
            self.outcome(old(ledger), final(ledger), seed, receive, amount, found, r),
    {
        let bump = match found {
            Some((address, bump)) => {
                if !address.same(&self.escrow) || self.maker.same(&self.escrow) {
                    return Err(EscrowError::AuthorityMismatch);
                }
                bump
            },
            None => { return Err(EscrowError::AuthorityMismatch); },
        };
        if ledger.record_of(&self.escrow).is_some() || ledger.has_holding(
            &self.escrow,
            &self.mint_a,
        ) {
            return Err(EscrowError::DuplicateOffer);
        }
        if !ledger.has_holding(&self.maker, &self.mint_a) || ledger.balance_of(
            &self.maker,
            &self.mint_a,
        ) < amount {
            return Err(EscrowError::InsufficientBalance);
        }
        let escrow = Escrow {
            maker: self.maker,
            mint_a: self.mint_a,
            mint_b: self.mint_b,
            seed,
            receive,
            bump,
        };
        ledger.open_record(&self.escrow, escrow);
        let ghost recorded = *ledger;
        proof {
            assert(!recorded.holds(self.escrow@, self.mint_a@));
        }
        match ledger.transfer(&self.maker, &self.escrow, &self.mint_a, amount) {
            Ok(()) => {},
            Err(e) => { return Err(e); },
        }
        proof {
            assert forall|a: Seq<u8>| #[trigger]
                ledger.record_at(a) == if a == self.escrow@ {
                    Some(self.record(seed, receive, bump))
                } else {
                    old(ledger).record_at(a)
                } by {
                assert(ledger.record_at(a) == recorded.record_at(a));
            }
            assert forall|o: Seq<u8>, m: Seq<u8>|
                #![trigger ledger.holds(o, m)]
                #![trigger ledger.balance(o, m)]
                recorded.holds(o, m) == old(ledger).holds(o, m) && recorded.balance(o, m) == old(
                    ledger,
                ).balance(o, m) by {}
        }
        Ok(())
    }

    /// Carries out a create request: searches the address and bump that the
    /// maker and the seed derive, and opens the escrow there.
    pub fn handler(&self, ledger: &mut Ledger, seed: u64, receive: u64, amount: u64) -> (r: Result<
        (),
        EscrowError,
    >)
        requires
            old(ledger).wf(),
        ensures
            final(ledger).wf(),
            exists|found: Option<(Address, u8)>|
                is_search_result(found, self.maker@, seed, old(ledger).program_id@)
                    && #[trigger] self.outcome(
                    old(ledger),
                    final(ledger),
                    seed,
                    receive,
                    amount,
                    found,
                    r,
                ),
    {
        let found = find_record_address(&self.maker, seed, &ledger.program_id);
        self.open_at(ledger, seed, receive, amount, found)
    }
}

} // verus!
