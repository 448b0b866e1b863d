//! The ledger operations that carry a request out, in the order in which they
//! are performed.

use crate::address::Address;
use crate::instructions::make::Make;
use crate::instructions::refund::Refund;
use crate::instructions::take::Take;
use crate::ledger::at;
use crate::ledger::Ledger;
use crate::ledger::Reclaim;
use crate::record::EscrowError;
use vstd::prelude::*;

verus! {

/// One operation on the ledger.
#[derive(Clone, Copy, Debug, PartialEq, Eq)]
pub enum Step {
    /// Move `amount` of `mint` from the holding account of `from` to that of
    /// `to`, which is created if needed. Where `by_custody` is set, `from` is
    /// the custody authority and the program authorizes the transfer with the
    /// escrow's signer seeds; else `from` signs.
    Transfer { from: Address, to: Address, mint: Address, amount: u64, by_custody: bool },
    /// Close the custody account that `owner` has for `mint`; its reserve goes
    /// to `destination`.
    CloseCustody { owner: Address, mint: Address, destination: Address },
    /// Close the escrow record at `address`; its reserve goes to `destination`.
    CloseRecord { address: Address, destination: Address },
}

/// Whether `after` is `before` with `step` carried out.
pub open spec fn applied(before: &Ledger, after: &Ledger, step: Step) -> bool {
    &&& after.wf()
    &&& after.program_id == before.program_id
    &&& match step {
        Step::Transfer { from, to, mint, amount, by_custody } => {
            &&& after.records == before.records
            &&& after.reclaims == before.reclaims
            &&& forall|o: Seq<u8>, m: Seq<u8>| #[trigger]
                after.holds(o, m) == (before.holds(o, m) || (o == to@ && m == mint@))
            &&& forall|o: Seq<u8>, m: Seq<u8>| #[trigger]
                after.balance(o, m) == before.balance(o, m) - at(o, m, from@, mint@, amount as int)
                    + at(o, m, to@, mint@, amount as int)
        },
        Step::CloseCustody { owner, mint, destination } => {
            &&& after.records == before.records
            &&& after.reclaims@ == if before.holds(owner@, mint@) {
                before.reclaims@.push((Reclaim::Holding { owner, mint, destination }))
            } else {
                before.reclaims@
            }
            &&& forall|o: Seq<u8>, m: Seq<u8>| #[trigger]
                after.holds(o, m) == (before.holds(o, m) && !(o == owner@ && m == mint@))
            &&& forall|o: Seq<u8>, m: Seq<u8>| #[trigger]
                after.balance(o, m) == before.balance(o, m)
        },
        Step::CloseRecord { address, destination } => {
            &&& after.holdings == before.holdings
            &&& after.reclaims@ == if before.record_at(address@) is Some {
                before.reclaims@.push((Reclaim::Record { address, destination }))
            } else {
                before.reclaims@
            }
            &&& forall|a: Seq<u8>| #[trigger]
                after.record_at(a) == if a == address@ {
                    None
                } else {
                    before.record_at(a)
                }
        },
    }
}

/// Whether the ledger can carry `step` out: a transfer needs a paying account
/// that holds the amount.
pub open spec fn can_apply(ledger: &Ledger, step: Step) -> bool {
    match step {
        Step::Transfer { from, to, mint, amount, by_custody } => ledger.holds(from@, mint@)
            && ledger.balance(from@, mint@) >= amount,
        _ => true,
    }
}

/// Whether the ledger takes `step`: a transfer that the paying account covers
/// must leave the receiving account within the largest quantity that an
/// account can hold, and a custody account that is closed must be empty.
pub open spec fn admits(ledger: &Ledger, step: Step) -> bool {
    match step {
        Step::Transfer { from, to, mint, amount, by_custody } => can_apply(ledger, step) ==> from@
            == to@ || ledger.balance(to@, mint@) + amount <= u64::MAX,
        Step::CloseCustody { owner, mint, destination } => ledger.balance(owner@, mint@) == 0,
        Step::CloseRecord { address, destination } => true,
    }
}

impl Ledger {
    /// Carries one step out. A transfer that the paying account cannot cover
    /// fails and changes nothing.
    pub fn apply(&mut self, step: &Step) -> (r: Result<(), EscrowError>)
        requires
            old(self).wf(),
            admits(old(self), *step),
        ensures
            r == if can_apply(old(self), *step) {
                Ok::<(), EscrowError>(())
            } else {
                Err::<(), EscrowError>(EscrowError::InsufficientBalance)
            },
            r is Err ==> *final(self) == *old(self),
            r is Ok ==> applied(old(self), final(self), *step),
    {
        match step {
            Step::Transfer { from, to, mint, amount, by_custody } => self.transfer(
                from,
                to,
                mint,
                *amount,
            ),
            Step::CloseCustody { owner, mint, destination } => {
                self.close_account(owner, mint, destination);
                Ok(())
            },
            Step::CloseRecord { address, destination } => {
                self.close_record(address, destination);
                Ok(())
            },
        }
    }
}

impl Make {
    /// The steps of an accepted create request, after the record was written:
    /// the maker pays `amount` of the offered asset into custody.
    pub open spec fn steps_spec(&self, amount: u64) -> Seq<Step> {
        seq![
            (Step::Transfer {
                from: self.maker,
                to: self.escrow,
                mint: self.mint_a,
                amount,
                by_custody: false,
            }),
        ]
    }

    /// The steps of an accepted create request.
    pub fn steps(&self, amount: u64) -> (r: Vec<Step>)
        ensures
            r@ == self.steps_spec(amount),
    {
        let r = vec![
            Step::Transfer {
                from: self.maker,
                to: self.escrow,
                mint: self.mint_a,
                amount,
                by_custody: false,
            },
        ];
        proof {
            assert(r@ =~= self.steps_spec(amount));
        }
        r
    }
}

impl Make {
    /// Writing the record of an accepted create request and then carrying
    /// out its steps leaves the ledger that the request leaves.
    pub proof fn lemma_steps_open(
        &self,
        before: &Ledger,
        recorded: &Ledger,
        after: &Ledger,
        seed: u64,
        receive: u64,
        amount: u64,
        found: Option<(Address, u8)>,
    )
        requires
            before.wf(),
            self.check(before, amount, found) is None,
            recorded.program_id == before.program_id,
            recorded.holdings == before.holdings,
            recorded.reclaims == before.reclaims,
            forall|a: Seq<u8>| #[trigger]
                recorded.record_at(a) == if a == self.escrow@ {
                    Some(self.record(seed, receive, found.unwrap().1))
                } else {
                    before.record_at(a)
                },
            applied(recorded, after, self.steps_spec(amount)[0]),
        ensures
            self.opened(before, after, seed, receive, amount, found.unwrap().1),
    {
        assert forall|a: Seq<u8>| #[trigger]
            after.record_at(a) == if a == self.escrow@ {
                Some(self.record(seed, receive, found.unwrap().1))
            } else {
                before.record_at(a)
            } by {
            assert(after.record_at(a) == recorded.record_at(a));
        }
        assert forall|o: Seq<u8>, m: Seq<u8>|
            #![trigger after.holds(o, m)]
            #![trigger after.balance(o, m)]
            recorded.holds(o, m) == before.holds(o, m) && recorded.balance(o, m) == before.balance(
                o,
                m,
            ) by {}
    }
}

impl Take {
    /// The steps of an accepted fulfill request, for the price that the record
    /// asks and the amount that custody holds: first the taker pays the maker,
    /// then custody is paid out to the taker and closed, its reserve going to
    /// the taker, and last the record is closed, its reserve going to the
    /// maker.
    pub open spec fn steps_spec(&self, price: u64, held: u64) -> Seq<Step> {
        seq![
            (Step::Transfer {
                from: self.taker,
                to: self.maker,
                mint: self.mint_b,
                amount: price,
                by_custody: false,
            }),
            (Step::Transfer {
                from: self.escrow,
                to: self.taker,
                mint: self.mint_a,
                amount: held,
                by_custody: true,
            }),
            (Step::CloseCustody { owner: self.escrow, mint: self.mint_a, destination: self.taker }),
            (Step::CloseRecord { address: self.escrow, destination: self.maker }),
        ]
    }

    /// The steps of an accepted fulfill request.
    pub fn steps(&self, price: u64, held: u64) -> (r: Vec<Step>)
        ensures
            r@ == self.steps_spec(price, held),
    {
        let r = vec![
            Step::Transfer {
                from: self.taker,
                to: self.maker,
                mint: self.mint_b,
                amount: price,
                by_custody: false,
            },
            Step::Transfer {
                from: self.escrow,
                to: self.taker,
                mint: self.mint_a,
                amount: held,
                by_custody: true,
            },
            Step::CloseCustody { owner: self.escrow, mint: self.mint_a, destination: self.taker },
            Step::CloseRecord { address: self.escrow, destination: self.maker },
        ];
        proof {
            assert(r@ =~= self.steps_spec(price, held));
        }
        r
    }

    /// Carrying out the steps of an accepted fulfill request one after the
    /// other leaves the ledger that the request leaves.
    pub proof fn lemma_steps_settle(
        &self,
        before: &Ledger,
        paid: &Ledger,
        drained: &Ledger,
        emptied: &Ledger,
        after: &Ledger,
    )
        requires
            before.wf(),
            self.check(before) is None,
            ({
                let price = before.record_at(self.escrow@).unwrap().receive;
                let held = before.balance(self.escrow@, self.mint_a@) as u64;
                let steps = self.steps_spec(price, held);
                &&& applied(before, paid, steps[0])
                &&& applied(paid, drained, steps[1])
                &&& applied(drained, emptied, steps[2])
                &&& applied(emptied, after, steps[3])
            }),
        ensures
            self.settled(before, after),
    {
        let price = before.record_at(self.escrow@).unwrap().receive as int;
        let held = before.balance(self.escrow@, self.mint_a@);
        assert forall|a: Seq<u8>| #[trigger]
            after.record_at(a) == if a == self.escrow@ {
                None
            } else {
                before.record_at(a)
            } by {
            assert(emptied.record_at(a) == before.record_at(a));
        }
        assert forall|o: Seq<u8>, m: Seq<u8>|
            #![trigger after.holds(o, m)]
            #![trigger after.balance(o, m)]
            after.holds(o, m) == emptied.holds(o, m) && after.balance(o, m) == emptied.balance(
                o,
                m,
            ) && emptied.holds(o, m) == (drained.holds(o, m) && !(o == self.escrow@ && m
                == self.mint_a@)) && drained.holds(o, m) == (paid.holds(o, m) || (o == self.taker@
                && m == self.mint_a@)) && paid.holds(o, m) == (before.holds(o, m) || (o
                == self.maker@ && m == self.mint_b@)) && drained.balance(o, m) == paid.balance(o, m)
                - at(o, m, self.escrow@, self.mint_a@, held) + at(
                o,
                m,
                self.taker@,
                self.mint_a@,
                held,
            ) && paid.balance(o, m) == before.balance(o, m) - at(
                o,
                m,
                self.taker@,
                self.mint_b@,
                price,
            ) + at(o, m, self.maker@, self.mint_b@, price) by {}
    }
}

impl Refund {
    /// The steps of an accepted cancel request, for the amount that custody
    /// holds: custody is paid out to the maker and closed, and the record is
    /// closed; both reserves go to the maker.
    pub open spec fn steps_spec(&self, held: u64) -> Seq<Step> {
        seq![
            (Step::Transfer {
                from: self.escrow,
                to: self.maker,
                mint: self.mint_a,
                amount: held,
                by_custody: true,
            }),
            (Step::CloseCustody { owner: self.escrow, mint: self.mint_a, destination: self.maker }),
            (Step::CloseRecord { address: self.escrow, destination: self.maker }),
        ]
    }

    /// The steps of an accepted cancel request.
    pub fn steps(&self, held: u64) -> (r: Vec<Step>)
        ensures
            r@ == self.steps_spec(held),
    {
        let r = vec![
            Step::Transfer {
                from: self.escrow,
                to: self.maker,
                mint: self.mint_a,
                amount: held,
                by_custody: true,
            },
            Step::CloseCustody { owner: self.escrow, mint: self.mint_a, destination: self.maker },
            Step::CloseRecord { address: self.escrow, destination: self.maker },
        ];
        proof {
            assert(r@ =~= self.steps_spec(held));
        }
        r
    }

    /// Carrying out the steps of an accepted cancel request one after the
    /// other leaves the ledger that the request leaves.
    pub proof fn lemma_steps_refund(
        &self,
        before: &Ledger,
        drained: &Ledger,
        emptied: &Ledger,
        after: &Ledger,
    )
        requires
            before.wf(),
            self.check(before) is None,
            ({
                let held = before.balance(self.escrow@, self.mint_a@) as u64;
                let steps = self.steps_spec(held);
                &&& applied(before, drained, steps[0])
                &&& applied(drained, emptied, steps[1])
                &&& applied(emptied, after, steps[2])
            }),
        ensures
            self.refunded(before, after),
    {
        let held = before.balance(self.escrow@, self.mint_a@);
        assert forall|a: Seq<u8>| #[trigger]
            after.record_at(a) == if a == self.escrow@ {
                None
            } else {
                before.record_at(a)
            } by {
            assert(emptied.record_at(a) == before.record_at(a));
        }
        assert forall|o: Seq<u8>, m: Seq<u8>|
            #![trigger after.holds(o, m)]
            #![trigger after.balance(o, m)]
            after.holds(o, m) == emptied.holds(o, m) && after.balance(o, m) == emptied.balance(
                o,
                m,
            ) && emptied.holds(o, m) == (drained.holds(o, m) && !(o == self.escrow@ && m
                == self.mint_a@)) && drained.holds(o, m) == (before.holds(o, m) || (o
                == self.maker@ && m == self.mint_a@)) && drained.balance(o, m) == before.balance(
                o,
                m,
            ) - at(o, m, self.escrow@, self.mint_a@, held) + at(
                o,
                m,
                self.maker@,
                self.mint_a@,
                held,
            ) by {}
    }
}

} // verus!
