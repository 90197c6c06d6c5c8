//! Addresses and the placeholders that stand in for them.
//!
//! A remote chain cannot compute a program-derived address, so it writes a
//! reserved pattern where such an address belongs: an ASCII label of at most
//! sixteen bytes, padded with zeros to the width of an address. A real key
//! ends in sixteen zero bytes with probability 2^-128. The all-zero address
//! is the system program and is no placeholder.

use vstd::prelude::*;

verus! {

/// Number of leading bytes that hold the label of a placeholder.
pub const LABEL_LEN: usize = 16;

/// Stands for the address under which the governance program signs when it
/// invokes another program: the label `cpi_authority`.
pub const CPI_AUTHORITY_PLACEHOLDER: [u8; 32] = [
    99, 112, 105, 95, 97, 117, 116, 104, 111, 114, 105, 116, 121, 0, 0, 0,
    0, 0, 0, 0, 0, 0, 0, 0, 0, 0, 0, 0, 0, 0, 0, 0,
];

/// Stands for the administrative authority of the target program: the label
/// `owner`.
pub const OWNER: [u8; 32] = [
    111, 119, 110, 101, 114, 0, 0, 0, 0, 0, 0, 0, 0, 0, 0, 0,
    0, 0, 0, 0, 0, 0, 0, 0, 0, 0, 0, 0, 0, 0, 0, 0,
];

/// What a placeholder stands for.
#[derive(Debug, Clone, Copy, PartialEq, Eq, Structural)]
pub enum Role {
    /// The program-derived address the governance program signs with.
    CpiAuthority,
    /// The administrative authority of the target program.
    OwnerAuthority,
}

/// What kind of address a 32-byte pattern is.
#[derive(Debug, Clone, Copy, PartialEq, Eq, Structural)]
pub enum AddressClass {
    /// An ordinary key, used as it stands.
    Literal,
    /// A placeholder with a known meaning.
    Placeholder(Role),
    /// A pattern from the reserved range that no placeholder uses.
    Unrecognized,
}

/// The pattern lies in the range reserved for placeholders: its upper half is
/// zero and its lower half is not.
pub open spec fn is_reserved(address: Seq<u8>) -> bool {
    &&& address.len() == 32
    &&& forall|i: int| LABEL_LEN <= i < 32 ==> address[i] == 0
    &&& exists|i: int| 0 <= i < LABEL_LEN && address[i] != 0
}

/// The kind of an address.
pub open spec fn spec_classify(address: Seq<u8>) -> AddressClass {
    if address == CPI_AUTHORITY_PLACEHOLDER@ {
        AddressClass::Placeholder(Role::CpiAuthority)
    } else if address == OWNER@ {
        AddressClass::Placeholder(Role::OwnerAuthority)
    } else if is_reserved(address) {
        AddressClass::Unrecognized
    } else {
        AddressClass::Literal
    }
}

/// Whether two addresses hold the same bytes.
pub fn same_address(a: &[u8; 32], b: &[u8; 32]) -> (same: bool)
    ensures
        same == (a@ == b@),
{
    let mut i: usize = 0;
    while i < 32
        invariant
            i <= 32,
            forall|j: int| 0 <= j < i ==> a@[j] == b@[j],
        decreases 32 - i,
    {
        if a[i] != b[i] {
            return false;
        }
        i += 1;
    }
    assert(a@ =~= b@);
    true
}

/// Whether the pattern lies in the range reserved for placeholders.
pub fn in_reserved_range(address: &[u8; 32]) -> (reserved: bool)
    ensures
        reserved == is_reserved(address@),
{
    let mut i: usize = LABEL_LEN;
    while i < 32
        invariant
            LABEL_LEN <= i <= 32,
            forall|j: int| LABEL_LEN <= j < i ==> address@[j] == 0,
        decreases 32 - i,
    {
        if address[i] != 0 {
            return false;
        }
        i += 1;
    }
    let mut k: usize = 0;
    while k < LABEL_LEN
        invariant
            k <= LABEL_LEN,
            forall|j: int| LABEL_LEN <= j < 32 ==> address@[j] == 0,
            forall|j: int| 0 <= j < k ==> address@[j] == 0,
        decreases LABEL_LEN - k,
    {
        if address[k] != 0 {
            return true;
        }
        k += 1;
    }
    false
}

/// Tells a literal key from a placeholder, and a known placeholder from a
/// reserved pattern without a meaning.
pub fn classify(address: &[u8; 32]) -> (class: AddressClass)
    ensures
        class == spec_classify(address@),
{
    if same_address(address, &CPI_AUTHORITY_PLACEHOLDER) {
        AddressClass::Placeholder(Role::CpiAuthority)
    } else if same_address(address, &OWNER) {
        AddressClass::Placeholder(Role::OwnerAuthority)
    } else if in_reserved_range(address) {
        AddressClass::Unrecognized
    } else {
        AddressClass::Literal
    }
}

/// The two placeholders differ, and both lie in the reserved range, so that
/// neither can be taken for a literal key.
pub proof fn lemma_placeholders_are_reserved()
    ensures
        is_reserved(CPI_AUTHORITY_PLACEHOLDER@),
        is_reserved(OWNER@),
        CPI_AUTHORITY_PLACEHOLDER@ != OWNER@,
        spec_classify(CPI_AUTHORITY_PLACEHOLDER@) == AddressClass::Placeholder(Role::CpiAuthority),
        spec_classify(OWNER@) == AddressClass::Placeholder(Role::OwnerAuthority),
{
    assert(CPI_AUTHORITY_PLACEHOLDER@[0] == 99);
    assert(OWNER@[0] == 111);
}

/// A literal key is never a placeholder: an address is classified as literal
/// exactly when it lies outside the reserved range.
pub proof fn lemma_literal_iff_not_reserved(address: Seq<u8>)
    ensures
        spec_classify(address) == AddressClass::Literal <==> !is_reserved(address),
{
    lemma_placeholders_are_reserved();
}

} // verus!
