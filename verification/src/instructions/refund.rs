//! Cancel: the maker takes the locked asset back and the escrow is closed.

use crate::address::Address;
use crate::custody::custody_is_valid;
use crate::custody::custody_matches;
use crate::ledger::at;
use crate::ledger::Ledger;
use crate::ledger::Reclaim;
use crate::record::Escrow;
use crate::record::EscrowError;
use vstd::prelude::*;

verus! {

/// The accounts of a cancel request.
#[derive(Clone, Copy, Debug, PartialEq, Eq)]
pub struct Refund {
    /// The identity that signed the request.
    pub maker: Address,
    /// The address of the escrow record, which is the custody authority.
    pub escrow: Address,
    /// The asset type that the request says is offered.
    pub mint_a: Address,
}

impl Refund {
    /// The error with which the request is rejected on this ledger, if any.
    /// The record is looked up first; then the signer and the asset type are
    /// held against it; last the custody authority is derived again from the
    /// record and held against the address and the custody account.
    pub open spec fn check(&self, ledger: &Ledger) -> Option<EscrowError> {
        match ledger.record_at(self.escrow@) {
            None => Some(EscrowError::RecordNotFound),
            Some(e) => if e.maker@ != self.maker@ {
                Some(EscrowError::InvalidMaker)
            } else if e.mint_a@ != self.mint_a@ {
                Some(EscrowError::InvalidAssetType)
            } else if !custody_matches(ledger, e, self.escrow@) {
                Some(EscrowError::AuthorityMismatch)
            } else {
                None
            },
        }
    }

    /// The reserve of the closed custody account, credited to the maker.
    pub open spec fn custody_reclaim(&self) -> Reclaim {
        Reclaim::Holding { owner: self.escrow, mint: self.mint_a, destination: self.maker }
    }

    /// The reserve of the closed record, credited to the maker.
    pub open spec fn record_reclaim(&self) -> Reclaim {
        Reclaim::Record { address: self.escrow, destination: self.maker }
    }

    /// The error with which the withdrawal from custody is refused for a
    /// record with the fields of `escrow`, if any: the record must name the
    /// maker and the offered asset of the request, and its fields must derive
    /// the custody authority that the request names.
    pub open spec fn withdrawal_check(&self, ledger: &Ledger, escrow: Escrow) -> Option<
        EscrowError,
    > {
        if escrow.maker@ != self.maker@ {
            Some(EscrowError::InvalidMaker)
        } else if escrow.mint_a@ != self.mint_a@ {
            Some(EscrowError::InvalidAssetType)
        } else if !custody_matches(ledger, escrow, self.escrow@) {
            Some(EscrowError::AuthorityMismatch)
        } else {
            None
        }
    }

    /// Whether the maker's account has room for what an accepted request pays
    /// back. A request that is rejected needs none.
    pub open spec fn has_room(&self, ledger: &Ledger) -> bool {
        self.check(ledger) is None ==> ledger.balance(self.maker@, self.mint_a@) + ledger.balance(
            self.escrow@,
            self.mint_a@,
        ) <= u64::MAX
    }

    /// The ledger after the custody account was paid out to the maker and
    /// closed: the maker has what custody held, custody is gone, its reserve
    /// credited to the maker, and every other balance is as before.
    pub open spec fn withdrawn(&self, before: &Ledger, after: &Ledger) -> bool {
        let held = before.balance(self.escrow@, self.mint_a@);
        &&& after.wf()
        &&& after.program_id == before.program_id
        &&& after.records == before.records
        &&& after.reclaims@ == before.reclaims@.push(self.custody_reclaim())
        &&& forall|o: Seq<u8>, m: Seq<u8>| #[trigger]
            after.holds(o, m) == ((before.holds(o, m) || (o == self.maker@ && m == self.mint_a@))
                && !(o == self.escrow@ && m == self.mint_a@))
        &&& forall|o: Seq<u8>, m: Seq<u8>| #[trigger]
            after.balance(o, m) == if o == self.escrow@ && m == self.mint_a@ {
                0
            } else {
                before.balance(o, m) + at(o, m, self.maker@, self.mint_a@, held)
            }
    }

    /// The ledger after the request was carried out: the maker has what
    /// custody held, the custody account and the record are gone, and the
    /// reserves of both are credited to the maker.
    pub open spec fn refunded(&self, before: &Ledger, after: &Ledger) -> bool {
        let held = before.balance(self.escrow@, self.mint_a@);
        &&& after.wf()
        &&& after.program_id == before.program_id
        &&& after.reclaims@ == before.reclaims@.push(self.custody_reclaim()).push(
            self.record_reclaim(),
        )
        &&& forall|a: Seq<u8>| #[trigger]
            after.record_at(a) == if a == self.escrow@ {
                None
            } else {
                before.record_at(a)
            }
        &&& forall|o: Seq<u8>, m: Seq<u8>| #[trigger]
            after.holds(o, m) == ((before.holds(o, m) || (o == self.maker@ && m == self.mint_a@))
                && !(o == self.escrow@ && m == self.mint_a@))
        &&& forall|o: Seq<u8>, m: Seq<u8>| #[trigger]
            after.balance(o, m) == before.balance(o, m) + at(o, m, self.maker@, self.mint_a@, held)
                - at(o, m, self.escrow@, self.mint_a@, held)
    }

    /// Holds the request against the record at the address it names, and
    /// returns that record.
    pub fn validate(&self, ledger: &Ledger) -> (r: Result<Escrow, EscrowError>)
        requires
            ledger.wf(),
        ensures
            match self.check(ledger) {
                Some(e) => r == Err::<Escrow, EscrowError>(e),
                None => r == Ok::<Escrow, EscrowError>(ledger.record_at(self.escrow@).unwrap()),
            },
    {
        let escrow = match ledger.record_of(&self.escrow) {
            Some(e) => e,
            None => { return Err(EscrowError::RecordNotFound); },
        };
        if !escrow.maker.same(&self.maker) {
            return Err(EscrowError::InvalidMaker);
        }
        if !escrow.mint_a.same(&self.mint_a) {
            return Err(EscrowError::InvalidAssetType);
        }
        if !custody_is_valid(ledger, &escrow, &self.escrow) {
            return Err(EscrowError::AuthorityMismatch);
        }
        Ok(escrow)
    }

    /// Derives the custody authority again from the fields of `escrow`, pays
    /// the whole custody balance to the maker's holding account, which is
    /// created if needed, and closes the custody account, whose reserve goes
    /// to the maker. Refuses, and changes nothing, where the record names
    /// another maker or offered asset than the request, where its fields do
    /// not derive the address that the request names, or where that address
    /// has no custody account.
    pub fn withdraw_and_close_vault(&self, ledger: &mut Ledger, escrow: &Escrow) -> (r: Result<
        (),
        EscrowError,
    >)
        requires
            old(ledger).wf(),
            self.withdrawal_check(old(ledger), *escrow) is None ==> old(ledger).balance(
                self.maker@,
                self.mint_a@,
            ) + old(ledger).balance(self.escrow@, self.mint_a@) <= u64::MAX,
        ensures
            r == match self.withdrawal_check(old(ledger), *escrow) {
                Some(e) => Err::<(), EscrowError>(e),
                None => Ok::<(), EscrowError>(()),
            },
            r is Err ==> *final(ledger) == *old(ledger),
            r is Ok ==> self.withdrawn(old(ledger), final(ledger)),
    {
        if !escrow.maker.same(&self.maker) {
            return Err(EscrowError::InvalidMaker);
        }
        if !escrow.mint_a.same(&self.mint_a) {
            return Err(EscrowError::InvalidAssetType);
        }
        if !custody_is_valid(ledger, escrow, &self.escrow) {
            return Err(EscrowError::AuthorityMismatch);
        }
        let held = ledger.balance_of(&self.escrow, &self.mint_a);
        match ledger.transfer(&self.escrow, &self.maker, &self.mint_a, held) {
            Ok(()) => {},
            Err(e) => { return Err(e); },
        }
        ledger.close_account(&self.escrow, &self.mint_a, &self.maker);
        Ok(())
    }
}

/// Carries out a cancel request: after validation, the custody balance goes
/// back to the maker, and the custody account and the record are closed. A
/// rejected request changes nothing.
pub fn handler(ledger: &mut Ledger, accounts: &Refund) -> (r: Result<(), EscrowError>)
    requires
        old(ledger).wf(),
        accounts.has_room(old(ledger)),
    ensures
        r == match accounts.check(old(ledger)) {
            Some(e) => Err::<(), EscrowError>(e),
            None => Ok::<(), EscrowError>(()),
        },
        r is Err ==> *final(ledger) == *old(ledger),
        r is Ok ==> accounts.refunded(old(ledger), final(ledger)),
{
    let escrow = match accounts.validate(ledger) {
        Ok(e) => e,
        Err(e) => { return Err(e); },
    };
    match accounts.withdraw_and_close_vault(ledger, &escrow) {
        Ok(()) => {},
        Err(e) => { return Err(e); },
    }
    let ghost paid = *ledger;
    ledger.close_record(&accounts.escrow, &accounts.maker);
    proof {
        assert forall|a: Seq<u8>| #[trigger]
            ledger.record_at(a) == if a == accounts.escrow@ {
                None
            } else {
                old(ledger).record_at(a)
            } by {
            assert(paid.record_at(a) == old(ledger).record_at(a));
        }
        assert forall|o: Seq<u8>, m: Seq<u8>|
            #![trigger ledger.holds(o, m)]
            #![trigger ledger.balance(o, m)]
            ledger.holds(o, m) == paid.holds(o, m) && ledger.balance(o, m) == paid.balance(
                o,
                m,
            ) by {}
    }
    Ok(())
}

} // verus!
