//! Fulfill: the taker pays what the maker asked for and receives what custody
//! holds; the escrow is closed.

use crate::address::Address;
use crate::custody::custody_is_valid;
use crate::custody::custody_matches;
use crate::ledger::at;
use crate::ledger::Ledger;
use crate::ledger::Reclaim;
use crate::record::Escrow;
use crate::record::EscrowError;
use vstd::prelude::*;

verus! {

/// The accounts of a fulfill request.
#[derive(Clone, Copy, Debug, PartialEq, Eq)]
pub struct Take {
    /// The identity that signed the request.
    pub taker: Address,
    /// The maker that the request names.
    pub maker: Address,
    /// The address of the escrow record, which is the custody authority.
    pub escrow: Address,
    /// The asset type that the request says is offered.
    pub mint_a: Address,
    /// The asset type that the request says is asked for.
    pub mint_b: Address,
}

impl Take {
    /// The error with which the request is rejected on this ledger, if any.
    /// The record is looked up first; then the maker and the two asset types
    /// are held against it; then the custody authority is derived again from
    /// the record and held against the address and the custody account (a
    /// taker that is the custody authority itself is refused here too, since
    /// nobody can sign for that address); last comes the taker's balance.
    pub open spec fn check(&self, ledger: &Ledger) -> Option<EscrowError> {
        match ledger.record_at(self.escrow@) {
            None => Some(EscrowError::RecordNotFound),
            Some(e) => if e.maker@ != self.maker@ {
                Some(EscrowError::InvalidMaker)
            } else if e.mint_a@ != self.mint_a@ || e.mint_b@ != self.mint_b@ {
                Some(EscrowError::InvalidAssetType)
            } else if !custody_matches(ledger, e, self.escrow@) || self.taker@ == self.escrow@ {
                Some(EscrowError::AuthorityMismatch)
            } else if !ledger.holds(self.taker@, self.mint_b@) || ledger.balance(
                self.taker@,
                self.mint_b@,
            ) < e.receive {
                Some(EscrowError::InsufficientBalance)
            } else {
                None
            },
        }
    }

    /// The ledger after the taker paid `amount` of the asked asset to the
    /// maker.
    pub open spec fn paid(&self, before: &Ledger, after: &Ledger, amount: int) -> bool {
        &&& after.wf()
        &&& after.program_id == before.program_id
        &&& after.records == before.records
        &&& after.reclaims == before.reclaims
        &&& forall|o: Seq<u8>, m: Seq<u8>| #[trigger]
            after.holds(o, m) == (before.holds(o, m) || (o == self.maker@ && m == self.mint_b@))
        &&& forall|o: Seq<u8>, m: Seq<u8>| #[trigger]
            after.balance(o, m) == before.balance(o, m) - at(o, m, self.taker@, self.mint_b@, amount)
                + at(o, m, self.maker@, self.mint_b@, amount)
    }

    /// The reserve of the closed custody account, credited to the taker.
    pub open spec fn custody_reclaim(&self) -> Reclaim {
        Reclaim::Holding { owner: self.escrow, mint: self.mint_a, destination: self.taker }
    }

    /// The reserve of the closed record, credited to the maker.
    pub open spec fn record_reclaim(&self) -> Reclaim {
        Reclaim::Record { address: self.escrow, destination: self.maker }
    }

    /// The error with which the withdrawal from custody is refused for a
    /// record with the fields of `escrow`, if any: the record must name the
    /// maker and the offered asset of the request, and its fields must derive
    /// the custody authority that the request names, which the taker is not.
    pub open spec fn withdrawal_check(&self, ledger: &Ledger, escrow: Escrow) -> Option<
        EscrowError,
    > {
        if escrow.maker@ != self.maker@ {
            Some(EscrowError::InvalidMaker)
        } else if escrow.mint_a@ != self.mint_a@ {
            Some(EscrowError::InvalidAssetType)
        } else if !custody_matches(ledger, escrow, self.escrow@) || self.taker@ == self.escrow@ {
            Some(EscrowError::AuthorityMismatch)
        } else {
            None
        }
    }

    /// Whether the accounts that an accepted request pays into have room for
    /// what they receive. A request that is rejected needs none.
    pub open spec fn has_room(&self, ledger: &Ledger) -> bool {
        self.check(ledger) is None ==> {
            &&& self.taker@ == self.maker@ || ledger.balance(self.maker@, self.mint_b@)
                + ledger.record_at(self.escrow@).unwrap().receive <= u64::MAX
            &&& ledger.balance(self.taker@, self.mint_a@) + ledger.balance(
                self.escrow@,
                self.mint_a@,
            ) <= u64::MAX
        }
    }

    /// The ledger after the custody account was paid out to the taker and
    /// closed, its reserve credited to the taker.
    pub open spec fn withdrawn(&self, before: &Ledger, after: &Ledger) -> bool {
        let held = before.balance(self.escrow@, self.mint_a@);
        &&& after.wf()
        &&& after.program_id == before.program_id
        &&& after.records == before.records
        &&& after.reclaims@ == before.reclaims@.push(self.custody_reclaim())
        &&& forall|o: Seq<u8>, m: Seq<u8>| #[trigger]
            after.holds(o, m) == ((before.holds(o, m) || (o == self.taker@ && m == self.mint_a@))
                && !(o == self.escrow@ && m == self.mint_a@))
        &&& forall|o: Seq<u8>, m: Seq<u8>| #[trigger]
            after.balance(o, m) == if o == self.escrow@ && m == self.mint_a@ {
                0
            } else {
                before.balance(o, m) + at(o, m, self.taker@, self.mint_a@, held)
            }
    }

    /// The ledger after the request was carried out: the maker has received
    /// what the record asks for, the taker has received what custody held, and
    /// the custody account and the record are gone, the reserve of the first
    /// credited to the taker and that of the second to the maker.
    pub open spec fn settled(&self, before: &Ledger, after: &Ledger) -> bool {
        let held = before.balance(self.escrow@, self.mint_a@);
        let price = before.record_at(self.escrow@).unwrap().receive as int;
        &&& after.wf()
        &&& after.program_id == before.program_id
        &&& after.reclaims@ == before.reclaims@.push(self.custody_reclaim()).push(
            self.record_reclaim(),
        )
        &&& forall|a: Seq<u8>| #[trigger]
            after.record_at(a) == if a == self.escrow@ {
                None
            } else {
                before.record_at(a)
            }
        &&& forall|o: Seq<u8>, m: Seq<u8>| #[trigger]
            after.holds(o, m) == ((before.holds(o, m) || (o == self.maker@ && m == self.mint_b@)
                || (o == self.taker@ && m == self.mint_a@)) && !(o == self.escrow@ && m
                == self.mint_a@))
        &&& forall|o: Seq<u8>, m: Seq<u8>| #[trigger]
            after.balance(o, m) == before.balance(o, m) - at(o, m, self.taker@, self.mint_b@, price)
                + at(o, m, self.maker@, self.mint_b@, price) + at(
                o,
                m,
                self.taker@,
                self.mint_a@,
                held,
            ) - at(o, m, self.escrow@, self.mint_a@, held)
    }

    /// Holds the request against the record at the address it names, and
    /// returns that record.
    pub fn validate(&self, ledger: &Ledger) -> (r: Result<Escrow, EscrowError>)
        requires
            ledger.wf(),
        ensures
            match self.check(ledger) {
                Some(e) => r == Err::<Escrow, EscrowError>(e),
                None => r == Ok::<Escrow, EscrowError>(ledger.record_at(self.escrow@).unwrap()),
            },
    {
        let escrow = match ledger.record_of(&self.escrow) {
            Some(e) => e,
            None => { return Err(EscrowError::RecordNotFound); },
        };
        if !escrow.maker.same(&self.maker) {
            return Err(EscrowError::InvalidMaker);
        }
        if !escrow.mint_a.same(&self.mint_a) || !escrow.mint_b.same(&self.mint_b) {
            return Err(EscrowError::InvalidAssetType);
        }
        if !custody_is_valid(ledger, &escrow, &self.escrow) || self.taker.same(&self.escrow) {
            return Err(EscrowError::AuthorityMismatch);
        }
        if !ledger.has_holding(&self.taker, &self.mint_b) || ledger.balance_of(
            &self.taker,
            &self.mint_b,
        ) < escrow.receive {
            return Err(EscrowError::InsufficientBalance);
        }
        Ok(escrow)
    }

    /// Pays what the record asks for from the taker's holding account to the
    /// maker's, which is created if needed. Fails, and changes nothing, where
    /// the taker holds too little.
    pub fn transfer_to_maker(&self, ledger: &mut Ledger, escrow: &Escrow) -> (r: Result<
        (),
        EscrowError,
    >)
        requires
            old(ledger).wf(),
            old(ledger).holds(self.taker@, self.mint_b@) && old(ledger).balance(
                self.taker@,
                self.mint_b@,
            ) >= escrow.receive ==> self.taker@ == self.maker@ || old(ledger).balance(
                self.maker@,
                self.mint_b@,
            ) + escrow.receive <= u64::MAX,
        ensures
            r == if old(ledger).holds(self.taker@, self.mint_b@) && old(ledger).balance(
                self.taker@,
                self.mint_b@,
            ) >= escrow.receive {
                Ok::<(), EscrowError>(())
            } else {
                Err::<(), EscrowError>(EscrowError::InsufficientBalance)
            },
            r is Err ==> *final(ledger) == *old(ledger),
            r is Ok ==> self.paid(old(ledger), final(ledger), escrow.receive as int),
    {
        ledger.transfer(&self.taker, &self.maker, &self.mint_b, escrow.receive)
    }

    /// Derives the custody authority again from the fields of `escrow`, pays
    /// the whole custody balance to the taker's holding account, which is
    /// created if needed, and closes the custody account, whose reserve goes
    /// to the taker. Refuses, and changes nothing, where the record names
    /// another maker or offered asset than the request, where its fields do
    /// not derive the address that the request names, where that address has
    /// no custody account, or where the taker is the custody authority.
    pub fn withdraw_and_close_vault(&self, ledger: &mut Ledger, escrow: &Escrow) -> (r: Result<
        (),
        EscrowError,
    >)
        requires
            old(ledger).wf(),
            self.withdrawal_check(old(ledger), *escrow) is None ==> old(ledger).balance(
                self.taker@,
                self.mint_a@,
            ) + old(ledger).balance(self.escrow@, self.mint_a@) <= u64::MAX,
        ensures
            r == match self.withdrawal_check(old(ledger), *escrow) {
                Some(e) => Err::<(), EscrowError>(e),
                None => Ok::<(), EscrowError>(()),
            },
            r is Err ==> *final(ledger) == *old(ledger),
            r is Ok ==> self.withdrawn(old(ledger), final(ledger)),
    {
        if !escrow.maker.same(&self.maker) {
            return Err(EscrowError::InvalidMaker);
        }
        if !escrow.mint_a.same(&self.mint_a) {
            return Err(EscrowError::InvalidAssetType);
        }
        if !custody_is_valid(ledger, escrow, &self.escrow) || self.taker.same(&self.escrow) {
            return Err(EscrowError::AuthorityMismatch);
        }
        let held = ledger.balance_of(&self.escrow, &self.mint_a);
        match ledger.transfer(&self.escrow, &self.taker, &self.mint_a, held) {
            Ok(()) => {},
            Err(e) => { return Err(e); },
        }
        ledger.close_account(&self.escrow, &self.mint_a, &self.taker);
        Ok(())
    }

    /// Carries out a fulfill request: after validation, the taker pays the
    /// maker, custody is paid out to the taker and closed, and the record is
    /// closed. A rejected request changes nothing.
    pub fn handler(&self, ledger: &mut Ledger) -> (r: Result<(), EscrowError>)
        requires
            old(ledger).wf(),
            self.has_room(old(ledger)),
        ensures
            r == match self.check(old(ledger)) {
                Some(e) => Err::<(), EscrowError>(e),
                None => Ok::<(), EscrowError>(()),
            },
            r is Err ==> *final(ledger) == *old(ledger),
            r is Ok ==> self.settled(old(ledger), final(ledger)),
    {
        let escrow = match self.validate(ledger) {
            Ok(e) => e,
            Err(e) => { return Err(e); },
        };
        match self.transfer_to_maker(ledger, &escrow) {
            Ok(()) => {},
            Err(e) => { return Err(e); },
        }
        let ghost paid = *ledger;
        proof {
            assert(paid.balance(self.taker@, self.mint_a@) <= old(ledger).balance(
                self.taker@,
                self.mint_a@,
            ));
            assert(paid.holds(self.escrow@, self.mint_a@));
        }
        match self.withdraw_and_close_vault(ledger, &escrow) {
            Ok(()) => {},
            Err(e) => { return Err(e); },
        }
        let ghost drained = *ledger;
        ledger.close_record(&self.escrow, &self.maker);
        proof {
            assert forall|a: Seq<u8>| #[trigger]
                ledger.record_at(a) == if a == self.escrow@ {
                    None
                } else {
                    old(ledger).record_at(a)
                } by {
                assert(drained.record_at(a) == old(ledger).record_at(a));
            }
            assert forall|o: Seq<u8>, m: Seq<u8>|
                #![trigger ledger.holds(o, m)]
                #![trigger ledger.balance(o, m)]
                ledger.holds(o, m) == drained.holds(o, m) && ledger.balance(o, m)
                    == drained.balance(o, m) && paid.holds(o, m) == (old(ledger).holds(o, m) || (o
                    == self.maker@ && m == self.mint_b@)) && paid.balance(o, m) == old(
                    ledger,
                ).balance(o, m) - at(o, m, self.taker@, self.mint_b@, escrow.receive as int) + at(
                    o,
                    m,
                    self.maker@,
                    self.mint_b@,
                    escrow.receive as int,
                ) by {}
        }
        Ok(())
    }
}

} // verus!
