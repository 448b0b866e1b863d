//! The escrow record and the errors of the protocol.

use crate::address::Address;
use vstd::prelude::*;

verus! {

/// The persisted description of one outstanding offer.
#[derive(Clone, Copy, Debug, PartialEq, Eq)]
pub struct Escrow {
    /// The party that created the offer.
    pub maker: Address,
    /// The asset type that is offered and held in custody.
    pub mint_a: Address,
    /// The asset type that is asked for.
    pub mint_b: Address,
    /// The maker's nonce for this offer.
    pub seed: u64,
    /// The quantity of `mint_b` that the maker must receive.
    pub receive: u64,
    /// The bump with which the record's fields derive the record's address.
    pub bump: u8,
}

/// Why a request was rejected.
#[derive(Clone, Copy, Debug, PartialEq, Eq)]
pub enum EscrowError {
    /// The supplied maker is not the maker of the record.
    InvalidMaker,
    /// A supplied asset type is not that of the record.
    InvalidAssetType,
    /// A record, or its custody account, already exists for the maker and seed.
    DuplicateOffer,
    /// No record stands at the supplied address.
    RecordNotFound,
    /// The paying account holds less than the request moves.
    InsufficientBalance,
    /// The custody authority cannot be derived, or what it derives to does not
    /// match the accounts presented.
    AuthorityMismatch,
}

} // verus!
