//! Turning a validated message into an instruction that can be invoked.
//!
//! Every account address is resolved, the order of the accounts and their
//! flags stay as they are, and the instruction data passes through untouched.
//! Nothing is kept between two messages.

use crate::account::{accounts_view, Acc, AccountSpec};
use crate::address::{is_reserved, same_address, CPI_AUTHORITY_PLACEHOLDER};
use crate::error::GovernanceError;
use crate::resolve::{
    derived_address, derived_view, lemma_resolved_is_not_reserved, optional_address_view,
    resolve_with, spec_derived_address, spec_resolve,
};
use vstd::prelude::*;

verus! {

/// An instruction with every placeholder replaced, ready for the invocation
/// primitive of the host runtime.
#[derive(Debug, Clone, PartialEq, Eq)]
pub struct ResolvedInstruction {
    pub program_id: [u8; 32],
    pub accounts: Vec<Acc>,
    pub data: Vec<u8>,
}

/// The mathematical value of a [`ResolvedInstruction`].
pub struct InstructionSpec {
    pub program_id: Seq<u8>,
    pub accounts: Seq<AccountSpec>,
    pub data: Seq<u8>,
}

impl View for ResolvedInstruction {
    type V = InstructionSpec;

    open spec fn view(&self) -> InstructionSpec {
        InstructionSpec {
            program_id: self.program_id@,
            accounts: accounts_view(self.accounts@),
            data: self.data@,
        }
    }
}

/// The value of a preparation result.
pub open spec fn instruction_result_view(
    result: Result<ResolvedInstruction, GovernanceError>,
) -> Result<InstructionSpec, GovernanceError> {
    match result {
        Ok(instruction) => Ok(instruction@),
        Err(error) => Err(error),
    }
}

/// An instruction together with what the invocation primitive needs to sign
/// for the governance program: the bump seed that completes the signer seeds,
/// present exactly when the governance program signs.
#[derive(Debug, Clone, PartialEq, Eq)]
pub struct Invocation {
    pub instruction: ResolvedInstruction,
    pub signer_bump: Option<u8>,
}

/// The mathematical value of an [`Invocation`].
pub struct InvocationSpec {
    pub instruction: InstructionSpec,
    pub signer_bump: Option<u8>,
}

impl View for Invocation {
    type V = InvocationSpec;

    open spec fn view(&self) -> InvocationSpec {
        InvocationSpec { instruction: self.instruction@, signer_bump: self.signer_bump }
    }
}

/// The value of a planning result.
pub open spec fn invocation_result_view(result: Result<Invocation, GovernanceError>) -> Result<
    InvocationSpec,
    GovernanceError,
> {
    match result {
        Ok(invocation) => Ok(invocation@),
        Err(error) => Err(error),
    }
}

/// Whether the address of an account resolves.
pub open spec fn spec_resolves(
    account: AccountSpec,
    cpi_authority: Option<Seq<u8>>,
    owner_authority: Seq<u8>,
) -> bool {
    spec_resolve(account.pubkey, cpi_authority, owner_authority) is Ok
}

/// An account with its address resolved and its flags kept.
pub open spec fn spec_resolved_account(
    account: AccountSpec,
    cpi_authority: Option<Seq<u8>>,
    owner_authority: Seq<u8>,
) -> AccountSpec
    recommends
        spec_resolves(account, cpi_authority, owner_authority),
{
    AccountSpec {
        pubkey: spec_resolve(account.pubkey, cpi_authority, owner_authority)->Ok_0,
        is_signer: account.is_signer,
        is_writable: account.is_writable,
    }
}

/// The accounts with every address resolved, in the same order, or
/// `UnresolvedPlaceholder` when one of them does not resolve.
pub open spec fn spec_resolve_accounts(
    accounts: Seq<AccountSpec>,
    cpi_authority: Option<Seq<u8>>,
    owner_authority: Seq<u8>,
) -> Result<Seq<AccountSpec>, GovernanceError> {
    if forall|i: int|
        0 <= i < accounts.len() ==> spec_resolves(
            #[trigger] accounts[i],
            cpi_authority,
            owner_authority,
        ) {
        Ok(
            Seq::new(
                accounts.len(),
                |i: int| spec_resolved_account(accounts[i], cpi_authority, owner_authority),
            ),
        )
    } else {
        Err(GovernanceError::UnresolvedPlaceholder)
    }
}

/// The instruction that a message's target, accounts and data give.
pub open spec fn spec_prepare(
    program_id: Seq<u8>,
    accounts: Seq<AccountSpec>,
    data: Seq<u8>,
    cpi_authority: Option<Seq<u8>>,
    owner_authority: Seq<u8>,
) -> Result<InstructionSpec, GovernanceError> {
    match spec_resolve_accounts(accounts, cpi_authority, owner_authority) {
        Ok(resolved) => Ok(InstructionSpec { program_id, accounts: resolved, data }),
        Err(error) => Err(error),
    }
}

/// The governance program has to sign the invocation: the signing
/// placeholder stands among the accounts that are marked as signers.
pub open spec fn spec_signs_as_cpi_authority(accounts: Seq<AccountSpec>) -> bool {
    exists|i: int|
        0 <= i < accounts.len() && (#[trigger] accounts[i]).is_signer && accounts[i].pubkey
            == CPI_AUTHORITY_PLACEHOLDER@
}

/// The bump seed to sign with: that of the derived signing address when the
/// governance program has to sign, and none otherwise.
pub open spec fn spec_signer_bump(
    accounts: Seq<AccountSpec>,
    authority: Option<(Seq<u8>, u8)>,
) -> Option<u8> {
    match authority {
        Some((_, bump)) if spec_signs_as_cpi_authority(accounts) => Some(bump),
        _ => None,
    }
}

/// The invocation that a message's target, accounts and data give, for a
/// derived signing address with its bump seed.
pub open spec fn spec_plan(
    program_id: Seq<u8>,
    accounts: Seq<AccountSpec>,
    data: Seq<u8>,
    authority: Option<(Seq<u8>, u8)>,
    owner_authority: Seq<u8>,
) -> Result<InvocationSpec, GovernanceError> {
    match spec_prepare(
        program_id,
        accounts,
        data,
        spec_derived_address(authority),
        owner_authority,
    ) {
        Ok(instruction) => Ok(
            InvocationSpec { instruction, signer_bump: spec_signer_bump(accounts, authority) },
        ),
        Err(error) => Err(error),
    }
}

/// Resolves the address of every account, keeping order and flags.
pub fn resolve_accounts(
    accounts: &Vec<Acc>,
    cpi_authority: &Option<[u8; 32]>,
    owner_authority: &[u8; 32],
) -> (result: Result<Vec<Acc>, GovernanceError>)
    ensures
        match result {
            Ok(resolved) => spec_resolve_accounts(
                accounts_view(accounts@),
                optional_address_view(*cpi_authority),
                owner_authority@,
            ) == Ok::<Seq<AccountSpec>, GovernanceError>(accounts_view(resolved@)),
            Err(error) => spec_resolve_accounts(
                accounts_view(accounts@),
                optional_address_view(*cpi_authority),
                owner_authority@,
            ) == Err::<Seq<AccountSpec>, GovernanceError>(error),
        },
{
    let ghost views = accounts_view(accounts@);
    let ghost cpi = optional_address_view(*cpi_authority);
    let count: usize = accounts.len();
    let mut resolved: Vec<Acc> = Vec::new();
    let mut i: usize = 0;
    while i < count
        invariant
            i <= count,
            count == accounts@.len(),
            views == accounts_view(accounts@),
            cpi == optional_address_view(*cpi_authority),
            resolved@.len() == i,
            forall|j: int| 0 <= j < i ==> spec_resolves(#[trigger] views[j], cpi, owner_authority@),
            forall|j: int|
                0 <= j < i ==> (#[trigger] resolved@[j])@ == spec_resolved_account(
                    views[j],
                    cpi,
                    owner_authority@,
                ),
        decreases count - i,
    {
        let account = &accounts[i];
        match resolve_with(&account.pubkey, cpi_authority, owner_authority) {
            Ok(pubkey) => {
                resolved.push(
                    Acc { pubkey, is_signer: account.is_signer, is_writable: account.is_writable },
                );
            },
            Err(_) => {
                assert(!spec_resolves(views[i as int], cpi, owner_authority@));
                return Err(GovernanceError::UnresolvedPlaceholder);
            },
        }
        i += 1;
    }
    assert(accounts_view(resolved@) =~= Seq::new(
        views.len(),
        |i: int| spec_resolved_account(views[i], cpi, owner_authority@),
    ));
    Ok(resolved)
}

/// Builds the instruction for a message's target, accounts and data, with a
/// signing address that was derived before.
pub fn prepare_with(
    program_id: [u8; 32],
    accounts: Vec<Acc>,
    data: Vec<u8>,
    cpi_authority: &Option<[u8; 32]>,
    owner_authority: &[u8; 32],
) -> (result: Result<ResolvedInstruction, GovernanceError>)
    ensures
        instruction_result_view(result) == spec_prepare(
            program_id@,
            accounts_view(accounts@),
            data@,
            optional_address_view(*cpi_authority),
            owner_authority@,
        ),
{
    match resolve_accounts(&accounts, cpi_authority, owner_authority) {
        Ok(resolved) => Ok(ResolvedInstruction { program_id, accounts: resolved, data }),
        Err(error) => Err(error),
    }
}

/// Whether the governance program has to sign the invocation.
pub fn signs_as_cpi_authority(accounts: &Vec<Acc>) -> (signs: bool)
    ensures
        signs == spec_signs_as_cpi_authority(accounts_view(accounts@)),
{
    let ghost views = accounts_view(accounts@);
    let count: usize = accounts.len();
    let mut i: usize = 0;
    while i < count
        invariant
            i <= count,
            count == accounts@.len(),
            views == accounts_view(accounts@),
            forall|j: int|
                0 <= j < i ==> !((#[trigger] views[j]).is_signer && views[j].pubkey
                    == CPI_AUTHORITY_PLACEHOLDER@),
        decreases count - i,
    {
        let account = &accounts[i];
        if account.is_signer && same_address(&account.pubkey, &CPI_AUTHORITY_PLACEHOLDER) {
            assert(views[i as int].is_signer && views[i as int].pubkey
                == CPI_AUTHORITY_PLACEHOLDER@);
            return true;
        }
        i += 1;
    }
    false
}

/// The bump seed to sign the invocation with, if the governance program has
/// to sign it.
pub fn signer_bump(accounts: &Vec<Acc>, authority: &Option<([u8; 32], u8)>) -> (bump: Option<u8>)
    ensures
        bump == spec_signer_bump(accounts_view(accounts@), derived_view(*authority)),
{
    match authority {
        Some((_, bump)) => if signs_as_cpi_authority(accounts) {
            Some(*bump)
        } else {
            None
        },
        None => None,
    }
}

/// Builds the invocation for a message's target, accounts and data, with a
/// signing address and bump seed that were derived before.
pub fn plan_with(
    program_id: [u8; 32],
    accounts: Vec<Acc>,
    data: Vec<u8>,
    authority: &Option<([u8; 32], u8)>,
    owner_authority: &[u8; 32],
) -> (result: Result<Invocation, GovernanceError>)
    ensures
        invocation_result_view(result) == spec_plan(
            program_id@,
            accounts_view(accounts@),
            data@,
            derived_view(*authority),
            owner_authority@,
        ),
{
    let bump = signer_bump(&accounts, authority);
    let signing = derived_address(authority);
    match prepare_with(program_id, accounts, data, &signing, owner_authority) {
        Ok(instruction) => Ok(Invocation { instruction, signer_bump: bump }),
        Err(error) => Err(error),
    }
}

/// An invocation carries a bump seed exactly when the signing placeholder
/// stands among the signer accounts of the message.
pub proof fn lemma_signs_iff_placeholder_signs(
    program_id: Seq<u8>,
    accounts: Seq<AccountSpec>,
    data: Seq<u8>,
    authority: Option<(Seq<u8>, u8)>,
    owner_authority: Seq<u8>,
)
    requires
        spec_plan(program_id, accounts, data, authority, owner_authority) is Ok,
    ensures
        spec_plan(program_id, accounts, data, authority, owner_authority)->Ok_0.signer_bump
            is Some <==> spec_signs_as_cpi_authority(accounts),
        spec_plan(program_id, accounts, data, authority, owner_authority)->Ok_0.signer_bump
            matches Some(bump) ==> authority is Some && authority->Some_0.1 == bump,
{
    if spec_signs_as_cpi_authority(accounts) && authority is None {
        let i = choose|i: int|
            0 <= i < accounts.len() && (#[trigger] accounts[i]).is_signer && accounts[i].pubkey
                == CPI_AUTHORITY_PLACEHOLDER@;
        crate::address::lemma_placeholders_are_reserved();
        assert(!spec_resolves(accounts[i], None, owner_authority));
    }
}

/// Resolution keeps the number, the order and the flags of the accounts, and
/// gives each account the address that its own address resolves to.
pub proof fn lemma_resolution_preserves_accounts(
    accounts: Seq<AccountSpec>,
    cpi_authority: Option<Seq<u8>>,
    owner_authority: Seq<u8>,
)
    requires
        spec_resolve_accounts(accounts, cpi_authority, owner_authority) is Ok,
    ensures
        ({
            let resolved = spec_resolve_accounts(accounts, cpi_authority, owner_authority)->Ok_0;
            &&& resolved.len() == accounts.len()
            &&& forall|i: int|
                0 <= i < accounts.len() ==> {
                    &&& (#[trigger] resolved[i]).is_signer == accounts[i].is_signer
                    &&& resolved[i].is_writable == accounts[i].is_writable
                    &&& spec_resolve(accounts[i].pubkey, cpi_authority, owner_authority) == Ok::<
                        Seq<u8>,
                        GovernanceError,
                    >(resolved[i].pubkey)
                }
        }),
{
    assert forall|i: int| 0 <= i < accounts.len() implies spec_resolves(
        #[trigger] accounts[i],
        cpi_authority,
        owner_authority,
    ) by {}
}

/// Preparation fails exactly when an address does not resolve, and then with
/// `UnresolvedPlaceholder`.
pub proof fn lemma_prepare_fails_iff_unresolved(
    program_id: Seq<u8>,
    accounts: Seq<AccountSpec>,
    data: Seq<u8>,
    cpi_authority: Option<Seq<u8>>,
    owner_authority: Seq<u8>,
)
    ensures
        ({
            let prepared = spec_prepare(program_id, accounts, data, cpi_authority, owner_authority);
            let stuck = exists|i: int|
                0 <= i < accounts.len() && spec_resolve(
                    (#[trigger] accounts[i]).pubkey,
                    cpi_authority,
                    owner_authority,
                ) is Err;
            &&& stuck ==> prepared == Err::<InstructionSpec, GovernanceError>(
                GovernanceError::UnresolvedPlaceholder,
            )
            &&& !stuck ==> prepared is Ok && prepared->Ok_0.program_id == program_id
                && prepared->Ok_0.data == data
        }),
{
    let stuck = exists|i: int|
        0 <= i < accounts.len() && spec_resolve(
            (#[trigger] accounts[i]).pubkey,
            cpi_authority,
            owner_authority,
        ) is Err;
    if stuck {
        let i = choose|i: int|
            0 <= i < accounts.len() && spec_resolve(
                (#[trigger] accounts[i]).pubkey,
                cpi_authority,
                owner_authority,
            ) is Err;
        assert(!spec_resolves(accounts[i], cpi_authority, owner_authority));
    } else {
        assert forall|i: int| 0 <= i < accounts.len() implies spec_resolves(
            #[trigger] accounts[i],
            cpi_authority,
            owner_authority,
        ) by {
            assert(!(spec_resolve(accounts[i].pubkey, cpi_authority, owner_authority) is Err));
        }
    }
}

/// No account of a prepared instruction carries a reserved pattern, as long
/// as the two authorities are keys themselves.
pub proof fn lemma_prepared_holds_no_placeholder(
    accounts: Seq<AccountSpec>,
    cpi_authority: Option<Seq<u8>>,
    owner_authority: Seq<u8>,
)
    requires
        !is_reserved(owner_authority),
        cpi_authority matches Some(authority) ==> !is_reserved(authority),
        spec_resolve_accounts(accounts, cpi_authority, owner_authority) is Ok,
    ensures
        forall|i: int|
            0 <= i < accounts.len() ==> !is_reserved(
                (#[trigger] spec_resolve_accounts(
                    accounts,
                    cpi_authority,
                    owner_authority,
                )->Ok_0[i]).pubkey,
            ),
{
    let resolved = spec_resolve_accounts(accounts, cpi_authority, owner_authority)->Ok_0;
    assert forall|i: int| 0 <= i < accounts.len() implies !is_reserved(
        (#[trigger] resolved[i]).pubkey,
    ) by {
        assert(spec_resolves(accounts[i], cpi_authority, owner_authority));
        lemma_resolved_is_not_reserved(accounts[i].pubkey, cpi_authority, owner_authority);
    }
}

} // verus!
