//! What holds of the protocol across requests.

use crate::address::Address;
use crate::authority::lemma_derivation_stable;
use crate::instructions::make::is_search_result;
use crate::instructions::make::Make;
use crate::instructions::refund::Refund;
use crate::instructions::take::Take;
use crate::ledger::Ledger;
use crate::record::EscrowError;
use vstd::prelude::*;

verus! {

/// The cancel request of the maker for the escrow that `offer` opened.
pub open spec fn cancel_of(offer: Make) -> Refund {
    Refund { maker: offer.maker, escrow: offer.escrow, mint_a: offer.mint_a }
}

/// The fulfill request of `taker` for the escrow that `offer` opened.
pub open spec fn fulfill_of(offer: Make, taker: Address) -> Take {
    Take {
        taker,
        maker: offer.maker,
        escrow: offer.escrow,
        mint_a: offer.mint_a,
        mint_b: offer.mint_b,
    }
}

/// Whether `offer` was accepted on `before` with the given arguments and left
/// `after`.
pub open spec fn created(
    offer: Make,
    before: &Ledger,
    after: &Ledger,
    seed: u64,
    receive: u64,
    amount: u64,
    found: Option<(Address, u8)>,
) -> bool {
    &&& before.wf()
    &&& is_search_result(found, offer.maker@, seed, before.program_id@)
    &&& offer.outcome(before, after, seed, receive, amount, found, Ok(()))
}

/// A record that a create request wrote derives its own address again from
/// its fields alone, so the custody check of the later requests accepts it.
pub proof fn lemma_created_record_rederives(
    offer: Make,
    before: &Ledger,
    after: &Ledger,
    seed: u64,
    receive: u64,
    amount: u64,
    found: Option<(Address, u8)>,
)
    requires
        created(offer, before, after, seed, receive, amount, found),
    ensures
        after.record_at(offer.escrow@) matches Some(e) && crate::custody::custody_matches(
            after,
            e,
            offer.escrow@,
        ),
{
    let (a, bump) = found.unwrap();
    lemma_derivation_stable(
        offer.maker@,
        seed,
        before.program_id@,
        a@,
        bump,
        a@,
        bump,
    );
    assert(after.record_at(offer.escrow@) == Some(offer.record(seed, receive, bump)));
    assert(after.holds(offer.escrow@, offer.mint_a@));
}

/// Create followed at once by cancel: the cancel request is accepted and
/// finds the room it needs, the maker receives exactly the amount that was
/// locked, every balance is what it was before the create request, and
/// neither the record nor the custody account is left.
pub proof fn lemma_create_then_cancel(
    offer: Make,
    before: &Ledger,
    open: &Ledger,
    after: &Ledger,
    seed: u64,
    receive: u64,
    amount: u64,
    found: Option<(Address, u8)>,
)
    requires
        created(offer, before, open, seed, receive, amount, found),
        cancel_of(offer).refunded(open, after),
    ensures
        cancel_of(offer).check(open) is None,
        cancel_of(offer).has_room(open),
        after.balance(offer.maker@, offer.mint_a@) == open.balance(offer.maker@, offer.mint_a@)
            + amount,
        forall|o: Seq<u8>, m: Seq<u8>| #[trigger] after.balance(o, m) == before.balance(o, m),
        after.record_at(offer.escrow@) is None,
        !after.holds(offer.escrow@, offer.mint_a@),
{
    lemma_created_record_rederives(offer, before, open, seed, receive, amount, found);
    assert(before.balance(offer.escrow@, offer.mint_a@) == 0);
    assert(open.balance(offer.escrow@, offer.mint_a@) == amount);
    assert forall|o: Seq<u8>, m: Seq<u8>| #[trigger] after.balance(o, m) == before.balance(
        o,
        m,
    ) by {
        assert(open.balance(o, m) == before.balance(o, m) - crate::ledger::at(
            o,
            m,
            offer.maker@,
            offer.mint_a@,
            amount as int,
        ) + crate::ledger::at(o, m, offer.escrow@, offer.mint_a@, amount as int));
    }
}

/// Create followed by fulfill, by a taker that is not the custody authority
/// and holds at least what the offer asks for: the fulfill request is
/// accepted, and neither the record nor the custody account is left. Where
/// the taker is not the maker, the maker gains exactly the asked quantity of
/// the asked asset; where the two assets differ, the taker gains exactly the
/// locked quantity of the offered asset.
pub proof fn lemma_create_then_fulfill(
    offer: Make,
    taker: Address,
    before: &Ledger,
    open: &Ledger,
    after: &Ledger,
    seed: u64,
    receive: u64,
    amount: u64,
    found: Option<(Address, u8)>,
)
    requires
        created(offer, before, open, seed, receive, amount, found),
        taker@ != offer.escrow@,
        open.holds(taker@, offer.mint_b@),
        open.balance(taker@, offer.mint_b@) >= receive,
        fulfill_of(offer, taker).settled(open, after),
    ensures
        fulfill_of(offer, taker).check(open) is None,
        taker@ != offer.maker@ ==> after.balance(offer.maker@, offer.mint_b@) == open.balance(
            offer.maker@,
            offer.mint_b@,
        ) + receive,
        offer.mint_a@ != offer.mint_b@ ==> after.balance(taker@, offer.mint_a@) == open.balance(
            taker@,
            offer.mint_a@,
        ) + amount,
        after.record_at(offer.escrow@) is None,
        !after.holds(offer.escrow@, offer.mint_a@),
{
    lemma_created_record_rederives(offer, before, open, seed, receive, amount, found);
    assert(before.balance(offer.escrow@, offer.mint_a@) == 0);
    assert(open.balance(offer.escrow@, offer.mint_a@) == amount);
}

/// A fulfill request that names another maker than the record's is rejected
/// as `InvalidMaker`; one that names the maker and another asset type than
/// the record's, as `InvalidAssetType`.
pub proof fn lemma_fulfill_mismatch(request: Take, ledger: &Ledger)
    requires
        ledger.record_at(request.escrow@) is Some,
    ensures
        ({
            let e = ledger.record_at(request.escrow@).unwrap();
            &&& e.maker@ != request.maker@ ==> request.check(ledger) == Some(
                EscrowError::InvalidMaker,
            )
            &&& e.maker@ == request.maker@ && (e.mint_a@ != request.mint_a@ || e.mint_b@
                != request.mint_b@) ==> request.check(ledger) == Some(
                EscrowError::InvalidAssetType,
            )
        }),
{
}

/// A cancel request by another identity than the record's maker is rejected
/// as `InvalidMaker`.
pub proof fn lemma_cancel_by_stranger(request: Refund, ledger: &Ledger)
    requires
        ledger.record_at(request.escrow@) matches Some(e) && e.maker@ != request.maker@,
    ensures
        request.check(ledger) == Some(EscrowError::InvalidMaker),
{
}

/// While an escrow is open, a second create request of the same maker with
/// the same seed, for the same record address, is rejected as
/// `DuplicateOffer`, whatever else it names.
pub proof fn lemma_second_create_is_duplicate(
    offer: Make,
    again: Make,
    before: &Ledger,
    open: &Ledger,
    seed: u64,
    receive: u64,
    amount: u64,
    found: Option<(Address, u8)>,
    amount_again: u64,
    found_again: Option<(Address, u8)>,
)
    requires
        created(offer, before, open, seed, receive, amount, found),
        again.maker@ == offer.maker@,
        again.escrow@ == offer.escrow@,
        is_search_result(found_again, again.maker@, seed, open.program_id@),
    ensures
        again.check(open, amount_again, found_again) == Some(EscrowError::DuplicateOffer),
{
    let (a, bump) = found.unwrap();
    assert(found_again is Some);
    let (a2, bump2) = found_again.unwrap();
    lemma_derivation_stable(offer.maker@, seed, before.program_id@, a@, bump, a2@, bump2);
    assert(open.record_at(offer.escrow@) == Some(offer.record(seed, receive, bump)));
}

/// Once an escrow was fulfilled, every further fulfill or cancel request for
/// it is rejected as `RecordNotFound`.
pub proof fn lemma_fulfilled_is_closed(
    done: Take,
    before: &Ledger,
    after: &Ledger,
    fulfill: Take,
    cancel: Refund,
)
    requires
        done.settled(before, after),
        fulfill.escrow@ == done.escrow@,
        cancel.escrow@ == done.escrow@,
    ensures
        fulfill.check(after) == Some(EscrowError::RecordNotFound),
        cancel.check(after) == Some(EscrowError::RecordNotFound),
{
    assert(after.record_at(done.escrow@) is None);
}

/// Once an escrow was cancelled, every further fulfill or cancel request for
/// it is rejected as `RecordNotFound`.
pub proof fn lemma_cancelled_is_closed(
    done: Refund,
    before: &Ledger,
    after: &Ledger,
    fulfill: Take,
    cancel: Refund,
)
    requires
        done.refunded(before, after),
        fulfill.escrow@ == done.escrow@,
        cancel.escrow@ == done.escrow@,
    ensures
        fulfill.check(after) == Some(EscrowError::RecordNotFound),
        cancel.check(after) == Some(EscrowError::RecordNotFound),
{
    assert(after.record_at(done.escrow@) is None);
}

} // verus!
