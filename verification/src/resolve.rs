//! Replacing placeholders by the addresses they stand for.
//!
//! Resolution happens right before an instruction is invoked, never while a
//! payload is parsed. It is strict: a pattern from the reserved range that
//! has no meaning is an error and is never passed on as if it were a key.

use crate::address::{classify, is_reserved, spec_classify, AddressClass, Role};
use crate::address::{CPI_AUTHORITY_PLACEHOLDER, OWNER};
use crate::error::GovernanceError;
use solana_program::pubkey::Pubkey;
use vstd::prelude::*;

verus! {

/// The seed from which the governance program derives the address it signs
/// with: the ASCII string `cpi_authority`.
pub const CPI_AUTHORITY_SEED: [u8; 13] = [
    99, 112, 105, 95, 97, 117, 116, 104, 111, 114, 105, 116, 121,
];

/// The program-derived address for one seed and a program, with its bump
/// seed, or nothing when there is none.
pub uninterp spec fn program_address(seed: Seq<u8>, program_id: Seq<u8>) -> Option<(Seq<u8>, u8)>;

/// The value of a derived address.
pub open spec fn derived_view(found: Option<([u8; 32], u8)>) -> Option<(Seq<u8>, u8)> {
    match found {
        Some((address, bump)) => Some((address@, bump)),
        None => None,
    }
}

/// The value of an optional address.
pub open spec fn optional_address_view(address: Option<[u8; 32]>) -> Option<Seq<u8>> {
    match address {
        Some(address) => Some(address@),
        None => None,
    }
}

/// The value of a resolution result.
pub open spec fn address_result_view(result: Result<[u8; 32], GovernanceError>) -> Result<
    Seq<u8>,
    GovernanceError,
> {
    match result {
        Ok(address) => Ok(address@),
        Err(error) => Err(error),
    }
}

/// Calls `Pubkey::try_find_program_address` of `solana_program` with the one
/// seed and the program's address. Not proved: that what comes back is the
/// program-derived address of these two arguments and its bump seed, or
/// nothing when there is none. The contract claims no more than that the
/// result is the one that belongs to the arguments.
#[verifier::external_body]
fn find_program_address(seed: &[u8], program_id: &[u8; 32]) -> (found: Option<([u8; 32], u8)>)
    ensures
        derived_view(found) == program_address(seed@, program_id@),
{
    match Pubkey::try_find_program_address(&[seed], &Pubkey::new_from_array(*program_id)) {
        Some((address, bump)) => Some((address.to_bytes(), bump)),
        None => None,
    }
}

/// The address part of a derived address.
pub open spec fn spec_derived_address(found: Option<(Seq<u8>, u8)>) -> Option<Seq<u8>> {
    match found {
        Some((address, _)) => Some(address),
        None => None,
    }
}

/// The address that the governance program with the given address signs
/// with, if the derivation finds one.
pub open spec fn spec_cpi_authority(governance_program_id: Seq<u8>) -> Option<Seq<u8>> {
    spec_derived_address(program_address(CPI_AUTHORITY_SEED@, governance_program_id))
}

/// What an address resolves to, given the derived signing address of the
/// governance program, if there is one, and the configured authority of the
/// target program.
pub open spec fn spec_resolve(
    address: Seq<u8>,
    cpi_authority: Option<Seq<u8>>,
    owner_authority: Seq<u8>,
) -> Result<Seq<u8>, GovernanceError> {
    match spec_classify(address) {
        AddressClass::Literal => Ok(address),
        AddressClass::Placeholder(Role::CpiAuthority) => match cpi_authority {
            Some(authority) => Ok(authority),
            None => Err(GovernanceError::UnresolvedPlaceholder),
        },
        AddressClass::Placeholder(Role::OwnerAuthority) => Ok(owner_authority),
        AddressClass::Unrecognized => Err(GovernanceError::UnresolvedPlaceholder),
    }
}

/// Derives the address that the governance program signs with, and the bump
/// seed that completes its signer seeds.
pub fn cpi_authority(governance_program_id: &[u8; 32]) -> (authority: Option<([u8; 32], u8)>)
    ensures
        derived_view(authority) == program_address(CPI_AUTHORITY_SEED@, governance_program_id@),
{
    find_program_address(CPI_AUTHORITY_SEED.as_slice(), governance_program_id)
}

/// The address part of a derived address.
pub fn derived_address(authority: &Option<([u8; 32], u8)>) -> (address: Option<[u8; 32]>)
    ensures
        optional_address_view(address) == spec_derived_address(derived_view(*authority)),
{
    match authority {
        Some((address, _)) => Some(*address),
        None => None,
    }
}

/// Resolves one address against a signing address that was derived before.
/// A literal key comes back unchanged, a placeholder as the address it
/// stands for; a reserved pattern without a meaning, and the signing
/// placeholder when no signing address could be derived, are errors.
pub fn resolve_with(
    address: &[u8; 32],
    cpi_authority: &Option<[u8; 32]>,
    owner_authority: &[u8; 32],
) -> (result: Result<[u8; 32], GovernanceError>)
    ensures
        address_result_view(result) == spec_resolve(
            address@,
            optional_address_view(*cpi_authority),
            owner_authority@,
        ),
{
    match classify(address) {
        AddressClass::Literal => Ok(*address),
        AddressClass::Placeholder(Role::CpiAuthority) => match cpi_authority {
            Some(authority) => Ok(*authority),
            None => Err(GovernanceError::UnresolvedPlaceholder),
        },
        AddressClass::Placeholder(Role::OwnerAuthority) => Ok(*owner_authority),
        AddressClass::Unrecognized => Err(GovernanceError::UnresolvedPlaceholder),
    }
}

/// Resolves one address for the governance program with the given address.
pub fn resolve_address(
    address: &[u8; 32],
    governance_program_id: &[u8; 32],
    owner_authority: &[u8; 32],
) -> (result: Result<[u8; 32], GovernanceError>)
    ensures
        address_result_view(result) == spec_resolve(
            address@,
            spec_cpi_authority(governance_program_id@),
            owner_authority@,
        ),
{
    let authority = cpi_authority(governance_program_id);
    let signing = derived_address(&authority);
    resolve_with(address, &signing, owner_authority)
}

/// Resolution depends on nothing but the address, the governance program and
/// the configured authority: equal inputs resolve alike.
pub proof fn lemma_resolution_is_deterministic(
    address: Seq<u8>,
    governance_program_id: Seq<u8>,
    owner_authority: Seq<u8>,
    other_address: Seq<u8>,
    other_governance_program_id: Seq<u8>,
    other_owner_authority: Seq<u8>,
)
    requires
        address == other_address,
        governance_program_id == other_governance_program_id,
        owner_authority == other_owner_authority,
    ensures
        spec_resolve(address, spec_cpi_authority(governance_program_id), owner_authority)
            == spec_resolve(
            other_address,
            spec_cpi_authority(other_governance_program_id),
            other_owner_authority,
        ),
{
}

/// A reserved pattern that is neither placeholder never resolves, whatever
/// the configuration.
pub proof fn lemma_unknown_placeholder_is_unresolved(
    address: Seq<u8>,
    cpi_authority: Option<Seq<u8>>,
    owner_authority: Seq<u8>,
)
    requires
        is_reserved(address),
        address != CPI_AUTHORITY_PLACEHOLDER@,
        address != OWNER@,
    ensures
        spec_resolve(address, cpi_authority, owner_authority) == Err::<Seq<u8>, GovernanceError>(
            GovernanceError::UnresolvedPlaceholder,
        ),
{
}

/// Every occurrence of the owner placeholder resolves to the configured
/// authority, and every occurrence of the signing placeholder to the derived
/// signing address.
pub proof fn lemma_placeholders_resolve(cpi_authority: Option<Seq<u8>>, owner_authority: Seq<u8>)
    ensures
        spec_resolve(OWNER@, cpi_authority, owner_authority) == Ok::<Seq<u8>, GovernanceError>(
            owner_authority,
        ),
        cpi_authority matches Some(authority) ==> spec_resolve(
            CPI_AUTHORITY_PLACEHOLDER@,
            cpi_authority,
            owner_authority,
        ) == Ok::<Seq<u8>, GovernanceError>(authority),
        cpi_authority is None ==> spec_resolve(
            CPI_AUTHORITY_PLACEHOLDER@,
            cpi_authority,
            owner_authority,
        ) == Err::<Seq<u8>, GovernanceError>(GovernanceError::UnresolvedPlaceholder),
{
    crate::address::lemma_placeholders_are_reserved();
}

/// No reserved pattern survives resolution, as long as the two authorities
/// are keys themselves.
pub proof fn lemma_resolved_is_not_reserved(
    address: Seq<u8>,
    cpi_authority: Option<Seq<u8>>,
    owner_authority: Seq<u8>,
)
    requires
        !is_reserved(owner_authority),
        cpi_authority matches Some(authority) ==> !is_reserved(authority),
        spec_resolve(address, cpi_authority, owner_authority) is Ok,
    ensures
        !is_reserved(spec_resolve(address, cpi_authority, owner_authority)->Ok_0),
{
    crate::address::lemma_placeholders_are_reserved();
}

} // verus!
