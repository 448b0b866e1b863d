//! Derivation of the record address, which is also the custody authority.
//!
//! The address of an escrow record is a program-derived address: a hash of the
//! seeds `"escrow"`, the maker's address, the offer's seed in little-endian
//! bytes and a one-byte bump, under the program's id. No private key exists for
//! such an address, so only the program can authorize actions in its name, by
//! presenting the seeds that reproduce it.

use crate::address::Address;
use anchor_lang::prelude::Pubkey;
use anchor_lang::solana_program::pubkey::PubkeyError;
use vstd::bytes::spec_u64_to_le_bytes;
use vstd::bytes::u64_to_le_bytes;
use vstd::prelude::*;

verus! {

/// The program-derived address of the given seeds under the given program id,
/// or `None` where the seeds give no valid address.
pub uninterp spec fn program_address(seeds: Seq<Seq<u8>>, program_id: Seq<u8>) -> Option<Seq<u8>>;

/// The tag that starts the seeds of every escrow record: the bytes of `"escrow"`.
pub open spec fn namespace_tag() -> Seq<u8> {
    seq![101u8, 115u8, 99u8, 114u8, 111u8, 119u8]
}

/// The seeds of an escrow record without the bump.
pub open spec fn record_seeds(maker: Seq<u8>, seed: u64) -> Seq<Seq<u8>> {
    seq![namespace_tag(), maker, spec_u64_to_le_bytes(seed)]
}

/// The seeds that authorize an action in the name of the custody authority.
pub open spec fn signer_seeds_spec(maker: Seq<u8>, seed: u64, bump: u8) -> Seq<Seq<u8>> {
    record_seeds(maker, seed).push(seq![bump])
}

/// The address that the record's fields derive, if any.
pub open spec fn record_address(maker: Seq<u8>, seed: u64, bump: u8, program_id: Seq<u8>) -> Option<
    Seq<u8>,
> {
    program_address(signer_seeds_spec(maker, seed, bump), program_id)
}

/// Whether `bump` is the highest bump from 255 down to 1 with which the seeds
/// derive an address, and `address` is that address.
pub open spec fn is_canonical(
    seeds: Seq<Seq<u8>>,
    program_id: Seq<u8>,
    address: Seq<u8>,
    bump: u8,
) -> bool {
    &&& bump >= 1
    &&& program_address(seeds.push(seq![bump]), program_id) == Some(address)
    &&& forall|b: u8| b > bump ==> (#[trigger] program_address(seeds.push(seq![b]), program_id)) is None
}

/// Whether no bump from 255 down to 1 derives an address from the seeds.
pub open spec fn no_canonical(seeds: Seq<Seq<u8>>, program_id: Seq<u8>) -> bool {
    forall|b: u8| b >= 1 ==> (#[trigger] program_address(seeds.push(seq![b]), program_id)) is None
}

/// The views of a list of seeds.
pub open spec fn seeds_view(seeds: &Vec<Vec<u8>>) -> Seq<Seq<u8>> {
    Seq::new(seeds@.len(), |i: int| seeds@[i]@)
}

/// The error of `Pubkey::create_program_address`.
#[verifier::external_type_specification]
#[verifier::external_body]
pub struct ExPubkeyError(PubkeyError);

/// Calls `Pubkey::create_program_address`. The call returns the derived
/// address exactly where `program_address` names one, and an error where it
/// names none; the result depends on the seeds and the program id alone.
#[verifier::external_body]
fn create_program_address(seeds: &Vec<Vec<u8>>, program_id: &Address) -> (r: Result<
    Address,
    PubkeyError,
>)
    ensures
        r.is_ok() == program_address(seeds_view(seeds), program_id@).is_some(),
        r matches Ok(a) ==> program_address(seeds_view(seeds), program_id@) == Some(a@),
{
    let refs: Vec<&[u8]> = seeds.iter().map(|s| s.as_slice()).collect();
    match Pubkey::create_program_address(&refs, &Pubkey::new_from_array(program_id.bytes)) {
        Ok(key) => Ok(Address { bytes: key.to_bytes() }),
        Err(e) => Err(e),
    }
}

/// Calls `Pubkey::try_find_program_address`, which tries the bumps from 255
/// down to 1 and returns the first address that `create_program_address`
/// derives from the seeds followed by the bump, with that bump; it returns
/// `None` where every one of them fails.
#[verifier::external_body]
fn try_find_program_address(seeds: &Vec<Vec<u8>>, program_id: &Address) -> (r: Option<
    (Address, u8),
>)
    ensures
        match r {
            Some((a, bump)) => is_canonical(seeds_view(seeds), program_id@, a@, bump),
            None => no_canonical(seeds_view(seeds), program_id@),
        },
{
    let refs: Vec<&[u8]> = seeds.iter().map(|s| s.as_slice()).collect();
    match Pubkey::try_find_program_address(&refs, &Pubkey::new_from_array(program_id.bytes)) {
        Some((key, bump)) => Some((Address { bytes: key.to_bytes() }, bump)),
        None => None,
    }
}

/// The seeds of an escrow record without the bump.
pub fn seeds_of(maker: &Address, seed: u64) -> (r: Vec<Vec<u8>>)
    ensures
        r@.len() == 3,
        seeds_view(&r) == record_seeds(maker@, seed),
{
    let tag: Vec<u8> = vec![101u8, 115u8, 99u8, 114u8, 111u8, 119u8];
    let mut out: Vec<Vec<u8>> = Vec::new();
    out.push(tag);
    out.push(maker.to_vec());
    out.push(u64_to_le_bytes(seed));
    proof {
        assert(out@[0]@ =~= namespace_tag());
        assert(seeds_view(&out) =~= record_seeds(maker@, seed));
    }
    out
}

/// The seeds that authorize an action in the name of the custody authority of
/// the escrow with these fields.
pub fn signer_seeds(maker: &Address, seed: u64, bump: u8) -> (r: Vec<Vec<u8>>)
    ensures
        r@.len() == 4,
        seeds_view(&r) == signer_seeds_spec(maker@, seed, bump),
{
    let mut out = seeds_of(maker, seed);
    let ghost before = seeds_view(&out);
    let ghost first = out@;
    let last: Vec<u8> = vec![bump];
    out.push(last);
    proof {
        assert(out@[3]@ =~= seq![bump]);
        assert forall|i: int| 0 <= i < 3 implies seeds_view(&out)[i] == before[i] by {
            assert(out@[i] == first[i]);
        }
        assert(seeds_view(&out) =~= before.push(seq![bump]));
    }
    out
}

/// Searches the bump for a new escrow record: the address and the bump that
/// the maker and the seed derive under the program id.
pub fn find_record_address(maker: &Address, seed: u64, program_id: &Address) -> (r: Option<
    (Address, u8),
>)
    ensures
        match r {
            Some((a, bump)) => is_canonical(record_seeds(maker@, seed), program_id@, a@, bump),
            None => no_canonical(record_seeds(maker@, seed), program_id@),
        },
{
    let seeds = seeds_of(maker, seed);
    try_find_program_address(&seeds, program_id)
}

/// Derives the record address again from the fields of a record.
pub fn derive_record_address(maker: &Address, seed: u64, bump: u8, program_id: &Address) -> (r:
    Option<Address>)
    ensures
        r.is_some() == record_address(maker@, seed, bump, program_id@).is_some(),
        r matches Some(a) ==> record_address(maker@, seed, bump, program_id@) == Some(a@),
{
    let seeds = signer_seeds(maker, seed, bump);
    match create_program_address(&seeds, program_id) {
        Ok(address) => Some(address),
        Err(_) => None,
    }
}

/// The search for a record's address has one result, and deriving the address
/// again from the maker, the seed and the bump that the search found gives the
/// address that the search found.
pub proof fn lemma_derivation_stable(
    maker: Seq<u8>,
    seed: u64,
    program_id: Seq<u8>,
    a1: Seq<u8>,
    b1: u8,
    a2: Seq<u8>,
    b2: u8,
)
    requires
        is_canonical(record_seeds(maker, seed), program_id, a1, b1),
        is_canonical(record_seeds(maker, seed), program_id, a2, b2),
    ensures
        a1 == a2,
        b1 == b2,
        record_address(maker, seed, b1, program_id) == Some(a1),
{
    if b1 < b2 {
        assert(program_address(record_seeds(maker, seed).push(seq![b2]), program_id) is None);
    }
    if b2 < b1 {
        assert(program_address(record_seeds(maker, seed).push(seq![b1]), program_id) is None);
    }
}

} // verus!
