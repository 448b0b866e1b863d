//! The binding between an escrow record, its address and its custody account.

use crate::address::Address;
use crate::authority::derive_record_address;
use crate::authority::record_address;
use crate::ledger::Ledger;
use crate::record::Escrow;
use vstd::prelude::*;

verus! {

/// Whether the fields of `escrow` derive `address` under the ledger's program
/// id, the custody account that `address` owns exists, and the maker is not the
/// custody authority itself.
pub open spec fn custody_matches(ledger: &Ledger, escrow: Escrow, address: Seq<u8>) -> bool {
    &&& record_address(escrow.maker@, escrow.seed, escrow.bump, ledger.program_id@) == Some(address)
    &&& ledger.holds(address, escrow.mint_a@)
    &&& escrow.maker@ != address
}

/// Derives the custody authority again from the record's fields and holds the
/// presented address and custody account against it.
pub fn custody_is_valid(ledger: &Ledger, escrow: &Escrow, address: &Address) -> (r: bool)
    ensures
        r == custody_matches(ledger, *escrow, address@),
{
    match derive_record_address(&escrow.maker, escrow.seed, escrow.bump, &ledger.program_id) {
        Some(derived) => derived.same(address) && ledger.has_holding(address, &escrow.mint_a)
            && !escrow.maker.same(address),
        None => false,
    }
}

} // verus!
