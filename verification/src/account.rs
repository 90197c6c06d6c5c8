use crate::address::same_address;
use vstd::prelude::*;

verus! {

/// Flag bit of an account entry that marks the account as a signer.
pub const FLAG_SIGNER: u8 = 1;

/// Flag bit of an account entry that marks the account as writable.
pub const FLAG_WRITABLE: u8 = 2;

/// One account of an instruction: its address, which may be a placeholder,
/// and the two permissions the instruction asks for.
#[derive(Debug, Clone, Copy, PartialEq, Eq)]
pub struct Acc {
    pub pubkey: [u8; 32],
    pub is_signer: bool,
    pub is_writable: bool,
}

/// The mathematical value of an [`Acc`].
pub struct AccountSpec {
    pub pubkey: Seq<u8>,
    pub is_signer: bool,
    pub is_writable: bool,
}

impl View for Acc {
    type V = AccountSpec;

    open spec fn view(&self) -> AccountSpec {
        AccountSpec {
            pubkey: self.pubkey@,
            is_signer: self.is_signer,
            is_writable: self.is_writable,
        }
    }
}

/// The values of a list of accounts, in order.
pub open spec fn accounts_view(accounts: Seq<Acc>) -> Seq<AccountSpec> {
    Seq::new(accounts.len(), |i: int| accounts[i]@)
}

/// A flag byte is valid when no bit but signer and writable is set.
pub open spec fn flags_valid(flags: u8) -> bool {
    flags < 4
}

/// Bit 0 of a flag byte.
pub open spec fn flags_signer(flags: u8) -> bool {
    flags % 2 == 1
}

/// Bit 1 of a flag byte.
pub open spec fn flags_writable(flags: u8) -> bool {
    (flags / 2) % 2 == 1
}

/// The flag byte that holds exactly the two given permissions.
pub open spec fn spec_flags(is_signer: bool, is_writable: bool) -> u8 {
    if is_signer {
        if is_writable { 3u8 } else { 1u8 }
    } else {
        if is_writable { 2u8 } else { 0u8 }
    }
}

/// The flag byte of an account entry.
pub fn encode_flags(is_signer: bool, is_writable: bool) -> (flags: u8)
    ensures
        flags == spec_flags(is_signer, is_writable),
        flags_valid(flags),
        flags_signer(flags) == is_signer,
        flags_writable(flags) == is_writable,
{
    let signer: u8 = if is_signer { FLAG_SIGNER } else { 0 };
    let writable: u8 = if is_writable { FLAG_WRITABLE } else { 0 };
    let flags: u8 = signer | writable;
    assert(flags == spec_flags(is_signer, is_writable)) by (bit_vector)
        requires
            signer == (if is_signer { 1u8 } else { 0u8 }),
            writable == (if is_writable { 2u8 } else { 0u8 }),
            flags == signer | writable,
    ;
    flags
}

/// Reads a flag byte: the two permissions, or nothing when a bit outside the
/// defined set is on.
pub fn decode_flags(flags: u8) -> (permissions: Option<(bool, bool)>)
    ensures
        permissions is Some <==> flags_valid(flags),
        permissions matches Some(p) ==> p.0 == flags_signer(flags) && p.1 == flags_writable(flags),
{
    assert((flags & !(1u8 | 2u8) == 0) == (flags < 4)) by (bit_vector);
    assert((flags & 1u8 != 0) == (flags % 2 == 1)) by (bit_vector);
    assert((flags & 2u8 != 0) == ((flags / 2) % 2 == 1)) by (bit_vector);
    if flags & !(FLAG_SIGNER | FLAG_WRITABLE) != 0 {
        None
    } else {
        Some((flags & FLAG_SIGNER != 0, flags & FLAG_WRITABLE != 0))
    }
}

/// Reading the flag byte of two permissions gives the two permissions back.
pub proof fn lemma_flags_roundtrip(is_signer: bool, is_writable: bool)
    ensures
        flags_valid(spec_flags(is_signer, is_writable)),
        flags_signer(spec_flags(is_signer, is_writable)) == is_signer,
        flags_writable(spec_flags(is_signer, is_writable)) == is_writable,
{
}

/// Whether two byte strings hold the same bytes.
pub fn same_bytes(a: &[u8], b: &[u8]) -> (same: bool)
    ensures
        same == (a@ == b@),
{
    let len: usize = a.len();
    if len != b.len() {
        return false;
    }
    let mut i: usize = 0;
    while i < len
        invariant
            i <= len,
            len == a@.len(),
            len == b@.len(),
            forall|j: int| 0 <= j < i ==> a@[j] == b@[j],
        decreases len - i,
    {
        if a[i] != b[i] {
            return false;
        }
        i += 1;
    }
    assert(a@ =~= b@);
    true
}

impl Acc {
    /// Whether two accounts have the same address and the same flags.
    pub fn same(&self, other: &Acc) -> (same: bool)
        ensures
            same == (self@ == other@),
    {
        same_address(&self.pubkey, &other.pubkey) && self.is_signer == other.is_signer
            && self.is_writable == other.is_writable
    }
}

/// Whether two lists hold the same accounts in the same order.
pub fn same_accounts(a: &Vec<Acc>, b: &Vec<Acc>) -> (same: bool)
    ensures
        same == (accounts_view(a@) == accounts_view(b@)),
{
    let len: usize = a.len();
    if len != b.len() {
        assert(accounts_view(a@).len() != accounts_view(b@).len());
        return false;
    }
    let mut i: usize = 0;
    while i < len
        invariant
            i <= len,
            len == a@.len(),
            len == b@.len(),
            forall|j: int| 0 <= j < i ==> (#[trigger] a@[j])@ == b@[j]@,
        decreases len - i,
    {
        if !a[i].same(&b[i]) {
            assert(accounts_view(a@)[i as int] != accounts_view(b@)[i as int]);
            return false;
        }
        i += 1;
    }
    assert(accounts_view(a@) =~= accounts_view(b@));
    true
}

} // verus!
