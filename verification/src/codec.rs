//! The wire format of a governance message.
//!
//! ```text
//! origin        32 bytes
//! program id    32 bytes
//! count          4 bytes, little endian
//! count entries 33 bytes each: address, then one flag byte
//! size           4 bytes, little endian
//! data          size bytes
//! ```
//!
//! Both bridges frame their messages this way. They differ in what the first
//! field means and in who checks it.

use crate::account::{
    accounts_view, decode_flags, encode_flags, flags_signer, flags_valid, flags_writable,
    spec_flags, Acc, AccountSpec,
};
use crate::error::GovernanceError;
use vstd::prelude::*;
use vstd::slice::{slice_subrange, slice_to_vec};

verus! {

/// Width of an address on the wire.
pub const ADDRESS_LEN: usize = 32;

/// Width of an account entry on the wire: an address and a flag byte.
pub const ACCOUNT_LEN: usize = 33;

/// Width of what precedes the account entries: two addresses and the count.
pub const HEADER_LEN: usize = 68;

/// Width of a length prefix.
pub const PREFIX_LEN: usize = 4;

/// The mathematical value of a governance message, whichever bridge carried it.
pub struct MessageSpec {
    pub origin: Seq<u8>,
    pub program_id: Seq<u8>,
    pub accounts: Seq<AccountSpec>,
    pub data: Seq<u8>,
}

impl MessageSpec {
    /// Every address of the message has the width of an address.
    pub open spec fn well_formed(self) -> bool {
        &&& self.origin.len() == ADDRESS_LEN
        &&& self.program_id.len() == ADDRESS_LEN
        &&& forall|i: int|
            0 <= i < self.accounts.len() ==> (#[trigger] self.accounts[i]).pubkey.len()
                == ADDRESS_LEN
    }

    /// Both variable sections are short enough for their length prefix.
    pub open spec fn encodable(self) -> bool {
        self.accounts.len() <= u32::MAX && self.data.len() <= u32::MAX
    }
}

/// A decoded message before a bridge has given its first field a meaning.
#[derive(Debug, Clone, PartialEq, Eq)]
pub struct Frame {
    pub origin: [u8; 32],
    pub program_id: [u8; 32],
    pub accounts: Vec<Acc>,
    pub data: Vec<u8>,
}

impl View for Frame {
    type V = MessageSpec;

    open spec fn view(&self) -> MessageSpec {
        MessageSpec {
            origin: self.origin@,
            program_id: self.program_id@,
            accounts: accounts_view(self.accounts@),
            data: self.data@,
        }
    }
}

/// The number that four bytes spell in little-endian order.
pub open spec fn spec_u32_le(bytes: Seq<u8>) -> int
    recommends
        bytes.len() == 4,
{
    bytes[0] as int + 256 * (bytes[1] as int) + 65536 * (bytes[2] as int) + 16777216 * (
    bytes[3] as int)
}

/// The four bytes that spell a number in little-endian order.
pub open spec fn spec_u32_le_bytes(n: int) -> Seq<u8>
    recommends
        0 <= n <= u32::MAX,
{
    seq![
        (n % 256) as u8,
        ((n / 256) % 256) as u8,
        ((n / 65536) % 256) as u8,
        ((n / 16777216) % 256) as u8,
    ]
}

/// One account entry on the wire.
pub open spec fn spec_encode_account(account: AccountSpec) -> Seq<u8> {
    account.pubkey.push(spec_flags(account.is_signer, account.is_writable))
}

/// The account entries on the wire, one after the other.
pub open spec fn spec_encode_accounts(accounts: Seq<AccountSpec>) -> Seq<u8>
    decreases accounts.len(),
{
    if accounts.len() == 0 {
        Seq::empty()
    } else {
        spec_encode_accounts(accounts.drop_last()) + spec_encode_account(accounts.last())
    }
}

/// A message on the wire.
pub open spec fn spec_encode(message: MessageSpec) -> Seq<u8> {
    message.origin + message.program_id + spec_u32_le_bytes(message.accounts.len() as int)
        + spec_encode_accounts(message.accounts) + spec_u32_le_bytes(message.data.len() as int)
        + message.data
}

/// The number of account entries that a payload announces.
pub open spec fn spec_account_count(bytes: Seq<u8>) -> int
    recommends
        bytes.len() >= HEADER_LEN,
{
    spec_u32_le(bytes.subrange(64, 68))
}

/// Where the account entry with the given index starts.
pub open spec fn entry_offset(index: int) -> int {
    HEADER_LEN + ACCOUNT_LEN * index
}

/// The flag byte of the account entry with the given index.
pub open spec fn flags_at(bytes: Seq<u8>, index: int) -> u8 {
    bytes[entry_offset(index) + ADDRESS_LEN]
}

/// The account entry with the given index: the address as it stands in the
/// payload, and the two flag bits.
pub open spec fn account_at(bytes: Seq<u8>, index: int) -> AccountSpec {
    AccountSpec {
        pubkey: bytes.subrange(entry_offset(index), entry_offset(index) + ADDRESS_LEN),
        is_signer: flags_signer(flags_at(bytes, index)),
        is_writable: flags_writable(flags_at(bytes, index)),
    }
}

/// What a payload decodes to. The fields are read in wire order and the first
/// failure decides: a section that runs past the end is `MalformedPayload`, a
/// flag byte with an undefined bit is `InvalidAccountFlags`, and bytes after
/// the data are `TrailingBytes`.
pub open spec fn spec_decode(bytes: Seq<u8>) -> Result<MessageSpec, GovernanceError> {
    if bytes.len() < HEADER_LEN {
        Err(GovernanceError::MalformedPayload)
    } else {
        let count = spec_account_count(bytes);
        let data_prefix = entry_offset(count);
        if bytes.len() < data_prefix {
            Err(GovernanceError::MalformedPayload)
        } else if exists|i: int| 0 <= i < count && !flags_valid(#[trigger] flags_at(bytes, i)) {
            Err(GovernanceError::InvalidAccountFlags)
        } else if bytes.len() < data_prefix + PREFIX_LEN {
            Err(GovernanceError::MalformedPayload)
        } else {
            let data_start = data_prefix + PREFIX_LEN;
            let size = spec_u32_le(bytes.subrange(data_prefix, data_start));
            if bytes.len() < data_start + size {
                Err(GovernanceError::MalformedPayload)
            } else if bytes.len() > data_start + size {
                Err(GovernanceError::TrailingBytes)
            } else {
                Ok(
                    MessageSpec {
                        origin: bytes.subrange(0, 32),
                        program_id: bytes.subrange(32, 64),
                        accounts: Seq::new(count as nat, |i: int| account_at(bytes, i)),
                        data: bytes.subrange(data_start, data_start + size),
                    },
                )
            }
        }
    }
}

/// The value of a decoding result.
pub open spec fn frame_result_view(result: Result<Frame, GovernanceError>) -> Result<
    MessageSpec,
    GovernanceError,
> {
    match result {
        Ok(frame) => Ok(frame@),
        Err(error) => Err(error),
    }
}

/// Copies the address that starts at the given offset.
pub(crate) fn read_address(bytes: &[u8], at: usize) -> (address: [u8; 32])
    requires
        at + ADDRESS_LEN <= bytes@.len(),
    ensures
        address@ == bytes@.subrange(at as int, at + ADDRESS_LEN),
{
    let len: usize = bytes.len();
    let mut address: [u8; 32] = [0u8; 32];
    let mut i: usize = 0;
    while i < 32
        invariant
            i <= 32,
            at + 32 <= len,
            len == bytes@.len(),
            forall|j: int| 0 <= j < i ==> address@[j] == bytes@[at + j],
        decreases 32 - i,
    {
        address[i] = bytes[at + i];
        i += 1;
    }
    assert(address@ =~= bytes@.subrange(at as int, at + ADDRESS_LEN));
    address
}

/// Reads the little-endian number that starts at the given offset.
pub(crate) fn read_u32_le(bytes: &[u8], at: usize) -> (n: u32)
    requires
        at + PREFIX_LEN <= bytes@.len(),
    ensures
        n == spec_u32_le(bytes@.subrange(at as int, at + PREFIX_LEN)),
{
    let len: usize = bytes.len();
    assert(at + 3 < len);
    let b0: u32 = bytes[at] as u32;
    let b1: u32 = bytes[at + 1] as u32;
    let b2: u32 = bytes[at + 2] as u32;
    let b3: u32 = bytes[at + 3] as u32;
    b0 + 256 * b1 + 65536 * b2 + 16777216 * b3
}

/// Appends a number as four little-endian bytes.
pub(crate) fn write_u32_le(out: &mut Vec<u8>, n: u32)
    ensures
        final(out)@ == old(out)@ + spec_u32_le_bytes(n as int),
{
    out.push((n % 256) as u8);
    out.push(((n / 256) % 256) as u8);
    out.push(((n / 65536) % 256) as u8);
    out.push(((n / 16777216) % 256) as u8);
    assert(out@ =~= old(out)@ + spec_u32_le_bytes(n as int));
}

/// Appends an address.
pub(crate) fn write_address(out: &mut Vec<u8>, address: &[u8; 32])
    ensures
        final(out)@ == old(out)@ + address@,
{
    let mut i: usize = 0;
    while i < 32
        invariant
            i <= 32,
            out@ == old(out)@ + address@.take(i as int),
        decreases 32 - i,
    {
        out.push(address[i]);
        assert(address@.take(i as int).push(address@[i as int]) =~= address@.take(i + 1));
        i += 1;
    }
    assert(address@.take(32) =~= address@);
}

/// Reading the four bytes of a number gives the number back.
pub proof fn lemma_u32_le_roundtrip(n: int)
    requires
        0 <= n <= u32::MAX,
    ensures
        spec_u32_le_bytes(n).len() == 4,
        spec_u32_le(spec_u32_le_bytes(n)) == n,
{
}

/// Parses a payload. The result is exactly what [`spec_decode`] says of the
/// bytes: the message they frame, or the first failure in wire order.
pub fn decode_frame(bytes: &[u8]) -> (result: Result<Frame, GovernanceError>)
    ensures
        frame_result_view(result) == spec_decode(bytes@),
{
    let len: usize = bytes.len();
    if len < HEADER_LEN {
        return Err(GovernanceError::MalformedPayload);
    }
    let origin = read_address(bytes, 0);
    let program_id = read_address(bytes, ADDRESS_LEN);
    let count: u32 = read_u32_le(bytes, 2 * ADDRESS_LEN);
    let table_len: u64 = 33 * (count as u64);
    if ((len - HEADER_LEN) as u64) < table_len {
        return Err(GovernanceError::MalformedPayload);
    }
    let mut accounts: Vec<Acc> = Vec::new();
    let mut i: u32 = 0;
    let mut at: usize = HEADER_LEN;
    while i < count
        invariant
            i <= count,
            len == bytes@.len(),
            at == entry_offset(i as int),
            count == spec_account_count(bytes@),
            entry_offset(count as int) <= len,
            accounts@.len() == i,
            forall|j: int| 0 <= j < i ==> (#[trigger] accounts@[j])@ == account_at(bytes@, j),
            forall|j: int| 0 <= j < i ==> flags_valid(#[trigger] flags_at(bytes@, j)),
        decreases count - i,
    {
        let pubkey = read_address(bytes, at);
        let flags: u8 = bytes[at + ADDRESS_LEN];
        match decode_flags(flags) {
            None => {
                assert(!flags_valid(flags_at(bytes@, i as int)));
                return Err(GovernanceError::InvalidAccountFlags);
            },
            Some((is_signer, is_writable)) => {
                accounts.push(Acc { pubkey, is_signer, is_writable });
            },
        }
        at += ACCOUNT_LEN;
        i += 1;
    }
    if len - at < PREFIX_LEN {
        return Err(GovernanceError::MalformedPayload);
    }
    let size: u32 = read_u32_le(bytes, at);
    let data_start: usize = at + PREFIX_LEN;
    let rest: usize = len - data_start;
    if (rest as u64) < (size as u64) {
        return Err(GovernanceError::MalformedPayload);
    }
    if (rest as u64) > (size as u64) {
        return Err(GovernanceError::TrailingBytes);
    }
    let data = slice_to_vec(slice_subrange(bytes, data_start, len));
    let frame = Frame { origin, program_id, accounts, data };
    proof {
        let decoded = spec_decode(bytes@);
        assert(decoded is Ok);
        assert(frame@.accounts =~= decoded->Ok_0.accounts);
    }
    Ok(frame)
}

/// Writes a message in wire format. There is no encoding when a variable
/// section holds more items than its four-byte length prefix can count.
pub fn encode_frame(
    origin: &[u8; 32],
    program_id: &[u8; 32],
    accounts: &Vec<Acc>,
    data: &Vec<u8>,
) -> (bytes: Option<Vec<u8>>)
    ensures
        ({
            let message = MessageSpec {
                origin: origin@,
                program_id: program_id@,
                accounts: accounts_view(accounts@),
                data: data@,
            };
            match bytes {
                Some(bytes) => message.encodable() && bytes@ == spec_encode(message),
                None => !message.encodable(),
            }
        }),
{
    let count: usize = accounts.len();
    let size: usize = data.len();
    if count > 0xffff_ffff || size > 0xffff_ffff {
        return None;
    }
    let mut out: Vec<u8> = Vec::new();
    write_address(&mut out, origin);
    write_address(&mut out, program_id);
    write_u32_le(&mut out, count as u32);
    let ghost head = out@;
    let ghost views = accounts_view(accounts@);
    let mut i: usize = 0;
    while i < count
        invariant
            i <= count,
            count == accounts@.len(),
            views == accounts_view(accounts@),
            out@ == head + spec_encode_accounts(views.take(i as int)),
        decreases count - i,
    {
        let account = &accounts[i];
        let flags = encode_flags(account.is_signer, account.is_writable);
        let ghost before = out@;
        write_address(&mut out, &account.pubkey);
        out.push(flags);
        proof {
            lemma_encode_accounts_push(views.take(i as int), views[i as int]);
            assert(views.take(i as int).push(views[i as int]) =~= views.take(i + 1));
            assert(out@ =~= before + spec_encode_account(views[i as int]));
            assert(out@ =~= head + spec_encode_accounts(views.take(i + 1)));
        }
        i += 1;
    }
    assert(views.take(count as int) =~= views);
    write_u32_le(&mut out, size as u32);
    let mut k: usize = 0;
    let ghost framed = out@;
    while k < size
        invariant
            k <= size,
            size == data@.len(),
            out@ == framed + data@.take(k as int),
        decreases size - k,
    {
        out.push(data[k]);
        assert(data@.take(k as int).push(data@[k as int]) =~= data@.take(k + 1));
        k += 1;
    }
    assert(data@.take(size as int) =~= data@);
    Some(out)
}

/// The layout of encoded account entries: entry `i` occupies the 33 bytes from
/// `33 * i` on, its address first and its flag byte last.
pub proof fn lemma_encoded_accounts_layout(accounts: Seq<AccountSpec>)
    requires
        forall|i: int|
            0 <= i < accounts.len() ==> (#[trigger] accounts[i]).pubkey.len() == ADDRESS_LEN,
    ensures
        spec_encode_accounts(accounts).len() == ACCOUNT_LEN * accounts.len(),
        forall|i: int|
            0 <= i < accounts.len() ==> #[trigger] spec_encode_accounts(accounts).subrange(
                ACCOUNT_LEN * i,
                ACCOUNT_LEN * i + ACCOUNT_LEN,
            ) == spec_encode_account(accounts[i]),
    decreases accounts.len(),
{
    let encoded = spec_encode_accounts(accounts);
    if accounts.len() > 0 {
        let front = accounts.drop_last();
        let n = front.len() as int;
        lemma_encoded_accounts_layout(front);
        let head = spec_encode_accounts(front);
        let last = spec_encode_account(accounts.last());
        assert(encoded == head + last);
        assert(last.len() == ACCOUNT_LEN);
        assert forall|i: int| 0 <= i < accounts.len() implies #[trigger] encoded.subrange(
            ACCOUNT_LEN * i,
            ACCOUNT_LEN * i + ACCOUNT_LEN,
        ) == spec_encode_account(accounts[i]) by {
            if i < n {
                assert(front[i] == accounts[i]);
                assert(encoded.subrange(ACCOUNT_LEN * i, ACCOUNT_LEN * i + ACCOUNT_LEN)
                    =~= head.subrange(ACCOUNT_LEN * i, ACCOUNT_LEN * i + ACCOUNT_LEN));
            } else {
                assert(encoded.subrange(ACCOUNT_LEN * i, ACCOUNT_LEN * i + ACCOUNT_LEN) =~= last);
            }
        }
    }
}

/// Encoding one more account appends its entry.
pub proof fn lemma_encode_accounts_push(accounts: Seq<AccountSpec>, account: AccountSpec)
    ensures
        spec_encode_accounts(accounts.push(account)) == spec_encode_accounts(accounts)
            + spec_encode_account(account),
{
    assert(accounts.push(account).drop_last() =~= accounts);
}

/// The sections of an encoded message: where each one lies and what it holds.
pub proof fn lemma_encode_layout(message: MessageSpec)
    requires
        message.well_formed(),
        message.encodable(),
    ensures
        ({
            let bytes = spec_encode(message);
            let count = message.accounts.len() as int;
            let size = message.data.len() as int;
            &&& bytes.len() == HEADER_LEN + ACCOUNT_LEN * count + PREFIX_LEN + size
            &&& bytes.subrange(0, 32) == message.origin
            &&& bytes.subrange(32, 64) == message.program_id
            &&& bytes.subrange(64, 68) == spec_u32_le_bytes(count)
            &&& bytes.subrange(HEADER_LEN as int, entry_offset(count)) == spec_encode_accounts(
                message.accounts,
            )
            &&& bytes.subrange(entry_offset(count), entry_offset(count) + PREFIX_LEN)
                == spec_u32_le_bytes(size)
            &&& bytes.subrange(entry_offset(count) + PREFIX_LEN, bytes.len() as int)
                == message.data
            &&& forall|i: int|
                0 <= i < count ==> #[trigger] account_at(bytes, i) == message.accounts[i]
            &&& forall|i: int| 0 <= i < count ==> flags_valid(#[trigger] flags_at(bytes, i))
        }),
{
    let bytes = spec_encode(message);
    let count = message.accounts.len() as int;
    let size = message.data.len() as int;
    let table = spec_encode_accounts(message.accounts);
    lemma_encoded_accounts_layout(message.accounts);
    lemma_u32_le_roundtrip(count);
    lemma_u32_le_roundtrip(size);
    assert(bytes.len() == HEADER_LEN + ACCOUNT_LEN * count + PREFIX_LEN + size);
    assert(bytes.subrange(0, 32) =~= message.origin);
    assert(bytes.subrange(32, 64) =~= message.program_id);
    assert(bytes.subrange(64, 68) =~= spec_u32_le_bytes(count));
    assert(bytes.subrange(HEADER_LEN as int, entry_offset(count)) =~= table);
    assert(bytes.subrange(entry_offset(count), entry_offset(count) + PREFIX_LEN)
        =~= spec_u32_le_bytes(size));
    assert(bytes.subrange(entry_offset(count) + PREFIX_LEN, bytes.len() as int) =~= message.data);
    assert forall|i: int| 0 <= i < count implies #[trigger] account_at(bytes, i)
        == message.accounts[i] by {
        lemma_encode_entry(message, i);
    }
    assert forall|i: int| 0 <= i < count implies flags_valid(#[trigger] flags_at(bytes, i)) by {
        lemma_encode_entry(message, i);
    }
}

/// Entry `i` of an encoded message holds account `i` of the message.
proof fn lemma_encode_entry(message: MessageSpec, i: int)
    requires
        message.well_formed(),
        0 <= i < message.accounts.len(),
    ensures
        account_at(spec_encode(message), i) == message.accounts[i],
        flags_valid(flags_at(spec_encode(message), i)),
{
    let bytes = spec_encode(message);
    let table = spec_encode_accounts(message.accounts);
    let account = message.accounts[i];
    lemma_encoded_accounts_layout(message.accounts);
    let entry = table.subrange(ACCOUNT_LEN * i, ACCOUNT_LEN * i + ACCOUNT_LEN);
    assert(entry == spec_encode_account(account));
    assert(account.pubkey.len() == ADDRESS_LEN);
    assert(spec_u32_le_bytes(message.accounts.len() as int).len() == 4);
    assert(bytes.subrange(entry_offset(i), entry_offset(i) + ACCOUNT_LEN) =~= entry);
    assert(flags_at(bytes, i) == entry[ADDRESS_LEN as int]);
    assert(entry[ADDRESS_LEN as int] == spec_flags(account.is_signer, account.is_writable));
    assert(bytes.subrange(entry_offset(i), entry_offset(i) + ADDRESS_LEN) =~= account.pubkey) by {
        assert forall|j: int| 0 <= j < ADDRESS_LEN implies bytes[entry_offset(i) + j]
            == account.pubkey[j] by {
            assert(bytes[entry_offset(i) + j] == entry[j]);
        }
    }
}

/// Decoding an encoded message gives the message back.
pub proof fn lemma_decode_encode(message: MessageSpec)
    requires
        message.well_formed(),
        message.encodable(),
    ensures
        spec_decode(spec_encode(message)) == Ok::<MessageSpec, GovernanceError>(message),
{
    let bytes = spec_encode(message);
    let count = message.accounts.len() as int;
    let size = message.data.len() as int;
    lemma_encode_layout(message);
    lemma_u32_le_roundtrip(count);
    lemma_u32_le_roundtrip(size);
    assert(spec_account_count(bytes) == count);
    let decoded = spec_decode(bytes);
    assert(decoded is Ok);
    assert(decoded->Ok_0.accounts =~= message.accounts);
}

/// A proper prefix of an encoded message is malformed, wherever it is cut.
pub proof fn lemma_truncated_is_malformed(message: MessageSpec, cut: int)
    requires
        message.well_formed(),
        message.encodable(),
        0 <= cut < spec_encode(message).len(),
    ensures
        spec_decode(spec_encode(message).subrange(0, cut)) == Err::<
            MessageSpec,
            GovernanceError,
        >(GovernanceError::MalformedPayload),
{
    let bytes = spec_encode(message);
    let prefix = bytes.subrange(0, cut);
    let count = message.accounts.len() as int;
    let size = message.data.len() as int;
    lemma_encode_layout(message);
    lemma_u32_le_roundtrip(count);
    lemma_u32_le_roundtrip(size);
    if cut >= HEADER_LEN {
        assert(prefix.subrange(64, 68) =~= bytes.subrange(64, 68));
        assert(spec_account_count(prefix) == count);
        if cut >= entry_offset(count) {
            assert forall|i: int| 0 <= i < count implies flags_valid(
                #[trigger] flags_at(prefix, i),
            ) by {
                assert(flags_at(prefix, i) == flags_at(bytes, i));
            }
            if cut >= entry_offset(count) + PREFIX_LEN {
                assert(prefix.subrange(entry_offset(count), entry_offset(count) + PREFIX_LEN)
                    =~= bytes.subrange(entry_offset(count), entry_offset(count) + PREFIX_LEN));
            }
        }
    }
}

/// Decoding keeps the accounts in the order of the payload, and each entry
/// as the payload has it: the 32 address bytes unchanged, bit 0 of the flag
/// byte as the signer flag and bit 1 as the writable flag.
pub proof fn lemma_decode_preserves_accounts(bytes: Seq<u8>)
    requires
        spec_decode(bytes) is Ok,
    ensures
        ({
            let message = spec_decode(bytes)->Ok_0;
            &&& message.accounts.len() == spec_account_count(bytes)
            &&& entry_offset(message.accounts.len() as int) <= bytes.len()
            &&& forall|i: int|
                0 <= i < message.accounts.len() ==> {
                    let account = #[trigger] message.accounts[i];
                    let flags = bytes[entry_offset(i) + ADDRESS_LEN];
                    &&& account.pubkey == bytes.subrange(
                        entry_offset(i),
                        entry_offset(i) + ADDRESS_LEN,
                    )
                    &&& account.is_signer == (flags % 2 == 1)
                    &&& account.is_writable == ((flags / 2) % 2 == 1)
                    &&& flags == spec_flags(account.is_signer, account.is_writable)
                }
        }),
{
    let message = spec_decode(bytes)->Ok_0;
    let count = spec_account_count(bytes);
    assert(0 <= count);
    assert forall|i: int| 0 <= i < message.accounts.len() implies flags_valid(
        #[trigger] flags_at(bytes, i),
    ) by {}
}

/// What decodes at all is well formed and can be encoded again.
pub proof fn lemma_decoded_is_well_formed(bytes: Seq<u8>)
    requires
        spec_decode(bytes) is Ok,
    ensures
        spec_decode(bytes)->Ok_0.well_formed(),
        spec_decode(bytes)->Ok_0.encodable(),
{
    let message = spec_decode(bytes)->Ok_0;
    assert(0 <= spec_account_count(bytes) <= u32::MAX);
}

/// Spelling the number of four bytes gives the four bytes back.
pub proof fn lemma_u32_le_bytes_roundtrip(bytes: Seq<u8>)
    requires
        bytes.len() == 4,
    ensures
        0 <= spec_u32_le(bytes) <= u32::MAX,
        spec_u32_le_bytes(spec_u32_le(bytes)) == bytes,
{
    let b0 = bytes[0] as int;
    let b1 = bytes[1] as int;
    let b2 = bytes[2] as int;
    let b3 = bytes[3] as int;
    let n = spec_u32_le(bytes);
    lemma_quotient_and_remainder(b0, b1 + 256 * b2 + 65536 * b3, 256);
    lemma_quotient_and_remainder(b1, b2 + 256 * b3, 256);
    lemma_quotient_and_remainder(b0 + 256 * b1, b2 + 256 * b3, 65536);
    lemma_quotient_and_remainder(b2, b3, 256);
    lemma_quotient_and_remainder(b0 + 256 * b1 + 65536 * b2, b3, 16777216);
    lemma_quotient_and_remainder(b3, 0, 256);
    assert(n % 256 == b0);
    assert((n / 256) % 256 == b1);
    assert((n / 65536) % 256 == b2);
    assert((n / 16777216) % 256 == b3);
    assert(spec_u32_le_bytes(n) =~= bytes);
}

/// Division with remainder undoes `remainder + divisor * quotient`.
proof fn lemma_quotient_and_remainder(remainder: int, quotient: int, divisor: int)
    by (nonlinear_arith)
    requires
        0 <= remainder < divisor,
    ensures
        (remainder + divisor * quotient) % divisor == remainder,
        (remainder + divisor * quotient) / divisor == quotient,
{
}

/// The first `count` account entries of a payload, decoded and encoded again,
/// are the bytes they were decoded from.
proof fn lemma_entries_encode_back(bytes: Seq<u8>, count: int)
    requires
        0 <= count,
        entry_offset(count) <= bytes.len(),
        forall|i: int| 0 <= i < count ==> flags_valid(#[trigger] flags_at(bytes, i)),
    ensures
        spec_encode_accounts(Seq::new(count as nat, |i: int| account_at(bytes, i)))
            == bytes.subrange(HEADER_LEN as int, entry_offset(count)),
    decreases count,
{
    let accounts = Seq::new(count as nat, |i: int| account_at(bytes, i));
    if count == 0 {
        assert(bytes.subrange(HEADER_LEN as int, entry_offset(0)) =~= Seq::<u8>::empty());
    } else {
        let front = Seq::new((count - 1) as nat, |i: int| account_at(bytes, i));
        lemma_entries_encode_back(bytes, count - 1);
        assert(accounts.drop_last() =~= front);
        let last = account_at(bytes, count - 1);
        assert(accounts.last() == last);
        assert(flags_valid(flags_at(bytes, count - 1)));
        assert(spec_encode_account(last) =~= bytes.subrange(
            entry_offset(count - 1),
            entry_offset(count),
        ));
        assert(bytes.subrange(HEADER_LEN as int, entry_offset(count - 1)) + bytes.subrange(
            entry_offset(count - 1),
            entry_offset(count),
        ) =~= bytes.subrange(HEADER_LEN as int, entry_offset(count)));
    }
}

/// Encoding a decoded payload gives the payload back: no two payloads decode
/// to the same message.
pub proof fn lemma_encode_decode(bytes: Seq<u8>)
    requires
        spec_decode(bytes) is Ok,
    ensures
        spec_encode(spec_decode(bytes)->Ok_0) == bytes,
{
    let message = spec_decode(bytes)->Ok_0;
    let count = spec_account_count(bytes);
    let data_prefix = entry_offset(count);
    let data_start = data_prefix + PREFIX_LEN;
    lemma_u32_le_bytes_roundtrip(bytes.subrange(64, 68));
    lemma_u32_le_bytes_roundtrip(bytes.subrange(data_prefix, data_start));
    assert forall|i: int| 0 <= i < count implies flags_valid(#[trigger] flags_at(bytes, i)) by {}
    lemma_entries_encode_back(bytes, count);
    assert(spec_encode(message) =~= bytes);
}

} // verus!
