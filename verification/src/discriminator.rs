//! Instruction selectors.
//!
//! A target program picks the function to run by the first eight bytes of the
//! instruction data: the start of the SHA-256 digest of the ASCII string
//! `global:` followed by the function's snake-case name. The arguments follow
//! the selector in their fixed-width serialisation.

use vstd::prelude::*;
use vstd::string::StringSliceAdditionalSpecFns;

verus! {

/// Width of an instruction selector.
pub const SELECTOR_LEN: usize = 8;

/// The namespace that precedes a function's name in a selector's preimage:
/// the ASCII string `global:`.
pub const GLOBAL_NAMESPACE: [u8; 7] = [103, 108, 111, 98, 97, 108, 58];

/// The SHA-256 digest of a byte string.
pub uninterp spec fn sha256(data: Seq<u8>) -> Seq<u8>;

/// Calls `solana_program::hash::hash` and takes the digest out of the `Hash`
/// with `Hash::to_bytes`. Not proved: that the 32 bytes that come back are the
/// SHA-256 digest of the input, which is all the contract says.
#[verifier::external_body]
fn sha256_digest(data: &[u8]) -> (digest: [u8; 32])
    ensures
        digest@ == sha256(data@),
{
    solana_program::hash::hash(data).to_bytes()
}

/// The selector that a preimage gives: the first eight bytes of its digest.
pub open spec fn spec_selector(preimage: Seq<u8>) -> Seq<u8> {
    sha256(preimage).subrange(0, SELECTOR_LEN as int)
}

/// The preimage of the selector of a function in the global namespace.
pub open spec fn spec_global_preimage(function_name: Seq<u8>) -> Seq<u8> {
    GLOBAL_NAMESPACE@ + function_name
}

/// Instruction data begins with the given selector.
pub open spec fn spec_has_selector(data: Seq<u8>, selector: Seq<u8>) -> bool {
    data.len() >= SELECTOR_LEN && data.subrange(0, SELECTOR_LEN as int) == selector
}

/// The first eight bytes of a digest.
pub fn selector_of_digest(digest: &[u8; 32]) -> (selector: [u8; 8])
    ensures
        selector@ == digest@.subrange(0, SELECTOR_LEN as int),
{
    let mut selector: [u8; 8] = [0u8; 8];
    let mut i: usize = 0;
    while i < SELECTOR_LEN
        invariant
            i <= SELECTOR_LEN,
            forall|j: int| 0 <= j < i ==> selector@[j] == digest@[j],
        decreases SELECTOR_LEN - i,
    {
        selector[i] = digest[i];
        i += 1;
    }
    assert(selector@ =~= digest@.subrange(0, SELECTOR_LEN as int));
    selector
}

/// The selector that a preimage gives.
pub fn discriminator(preimage: &[u8]) -> (selector: [u8; 8])
    ensures
        selector@ == spec_selector(preimage@),
{
    let digest = sha256_digest(preimage);
    selector_of_digest(&digest)
}

/// The selector of a function in the global namespace, from the function's
/// snake-case name.
pub fn global_selector(function_name: &str) -> (selector: [u8; 8])
    ensures
        selector@ == spec_selector(spec_global_preimage(function_name.spec_bytes())),
{
    let name = function_name.as_bytes();
    let mut preimage: Vec<u8> = Vec::new();
    let mut i: usize = 0;
    while i < 7
        invariant
            i <= 7,
            preimage@ == GLOBAL_NAMESPACE@.take(i as int),
        decreases 7 - i,
    {
        preimage.push(GLOBAL_NAMESPACE[i]);
        assert(GLOBAL_NAMESPACE@.take(i as int).push(GLOBAL_NAMESPACE@[i as int])
            =~= GLOBAL_NAMESPACE@.take(i + 1));
        i += 1;
    }
    assert(GLOBAL_NAMESPACE@.take(7) =~= GLOBAL_NAMESPACE@);
    append_bytes(&mut preimage, name);
    discriminator(preimage.as_slice())
}

/// Appends a byte string.
pub(crate) fn append_bytes(out: &mut Vec<u8>, bytes: &[u8])
    ensures
        final(out)@ == old(out)@ + bytes@,
{
    let len: usize = bytes.len();
    let mut i: usize = 0;
    while i < len
        invariant
            i <= len,
            len == bytes@.len(),
            out@ == old(out)@ + bytes@.take(i as int),
        decreases len - i,
    {
        out.push(bytes[i]);
        assert(bytes@.take(i as int).push(bytes@[i as int]) =~= bytes@.take(i + 1));
        i += 1;
    }
    assert(bytes@.take(len as int) =~= bytes@);
}

/// Instruction data: a selector followed by the serialised arguments.
pub fn instruction_data(selector: &[u8; 8], args: &[u8]) -> (data: Vec<u8>)
    ensures
        data@ == selector@ + args@,
{
    let mut data: Vec<u8> = Vec::new();
    append_bytes(&mut data, selector.as_slice());
    append_bytes(&mut data, args);
    data
}

/// Instruction data for the function whose selector preimage is `fn_name`
/// (namespace included, as in `global:set_paused`), with the given serialised
/// arguments.
pub fn encode_anchor_ix_data(fn_name: &str, args: &[u8]) -> (data: Vec<u8>)
    ensures
        data@ == spec_selector(fn_name.spec_bytes()) + args@,
{
    let selector = discriminator(fn_name.as_bytes());
    instruction_data(&selector, args)
}

/// Whether instruction data begins with the given selector.
pub fn has_selector(data: &[u8], selector: &[u8; 8]) -> (found: bool)
    ensures
        found == spec_has_selector(data@, selector@),
{
    if data.len() < SELECTOR_LEN {
        return false;
    }
    let mut i: usize = 0;
    while i < SELECTOR_LEN
        invariant
            i <= SELECTOR_LEN,
            data@.len() >= SELECTOR_LEN,
            forall|j: int| 0 <= j < i ==> data@[j] == selector@[j],
        decreases SELECTOR_LEN - i,
    {
        if data[i] != selector[i] {
            assert(data@.subrange(0, SELECTOR_LEN as int)[i as int] != selector@[i as int]);
            return false;
        }
        i += 1;
    }
    assert(data@.subrange(0, SELECTOR_LEN as int) =~= selector@);
    true
}

/// Whether instruction data begins with one of the selectors on an allow
/// list.
pub fn selector_allowed(data: &[u8], allowed: &Vec<[u8; 8]>) -> (found: bool)
    ensures
        found == exists|i: int|
            0 <= i < allowed@.len() && spec_has_selector(data@, #[trigger] allowed@[i]@),
{
    let count: usize = allowed.len();
    let mut i: usize = 0;
    while i < count
        invariant
            i <= count,
            count == allowed@.len(),
            forall|j: int| 0 <= j < i ==> !spec_has_selector(data@, #[trigger] allowed@[j]@),
        decreases count - i,
    {
        if has_selector(data, &allowed[i]) {
            return true;
        }
        i += 1;
    }
    false
}

} // verus!
