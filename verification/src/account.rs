//! Accounts as the host hands them to the program, and the checks that every
//! instruction makes on them before it reads or writes a record.

use vstd::prelude::*;
use crate::error::LedgerError;
use crate::pubkey::Pubkey;

verus! {

/// Every instruction names this many accounts, by position.
pub const ACCOUNTS_PER_INSTRUCTION: usize = 3;

/// One account of an instruction: who it is, who may write to it, whether it
/// signed, what it is funded with, and the bytes it stores.
#[derive(Clone, Debug, PartialEq, Eq)]
pub struct AccountInfo {
    pub key: Pubkey,
    pub is_signer: bool,
    pub owner: Pubkey,
    pub lamports: u64,
    pub data: Vec<u8>,
}

/// What an `AccountInfo` holds.
pub struct AccountView {
    pub key: Seq<u8>,
    pub is_signer: bool,
    pub owner: Seq<u8>,
    pub lamports: u64,
    pub data: Seq<u8>,
}

impl View for AccountInfo {
    type V = AccountView;

    open spec fn view(&self) -> AccountView {
        AccountView {
            key: self.key@,
            is_signer: self.is_signer,
            owner: self.owner@,
            lamports: self.lamports,
            data: self.data@,
        }
    }
}

impl DeepView for AccountInfo {
    type V = AccountView;

    open spec fn deep_view(&self) -> AccountView {
        self@
    }
}

/// The first `owned` accounts all belong to `program_id`.
pub open spec fn owned_by(program_id: Seq<u8>, accounts: Seq<AccountView>, owned: int) -> bool {
    forall|i: int| 0 <= i < owned ==> (#[trigger] accounts[i]).owner == program_id
}

/// Why an instruction may not touch its accounts, if it may not: too few
/// accounts were passed, the account at position `signer` did not sign, or one
/// of the first `owned` accounts belongs to another program. The first of
/// these that applies is the reason.
pub open spec fn validation_failure(
    program_id: Seq<u8>,
    accounts: Seq<AccountView>,
    signer: int,
    owned: int,
) -> Option<LedgerError> {
    if accounts.len() < ACCOUNTS_PER_INSTRUCTION || accounts.len() <= signer || accounts.len()
        < owned {
        Some(LedgerError::MissingAccount)
    } else if !accounts[signer].is_signer {
        Some(LedgerError::MissingRequiredSignature)
    } else if !owned_by(program_id, accounts, owned) {
        Some(LedgerError::IncorrectOwner)
    } else {
        None
    }
}

/// Checks that enough accounts were passed, that the one at position `signer`
/// signed, and that the first `owned` of them belong to `program_id`.
pub fn validate_accounts(
    program_id: &Pubkey,
    accounts: &Vec<AccountInfo>,
    signer: usize,
    owned: usize,
) -> (r: Result<(), LedgerError>)
    ensures
        match r {
            Ok(()) => validation_failure(
                program_id@,
                accounts.deep_view(),
                signer as int,
                owned as int,
            ) is None,
            Err(e) => validation_failure(
                program_id@,
                accounts.deep_view(),
                signer as int,
                owned as int,
            ) == Some(e),
        },
{
    if accounts.len() < ACCOUNTS_PER_INSTRUCTION || accounts.len() <= signer || accounts.len()
        < owned {
        return Err(LedgerError::MissingAccount);
    }
    if !accounts[signer].is_signer {
        return Err(LedgerError::MissingRequiredSignature);
    }
    let mut i: usize = 0;
    while i < owned
        invariant
            i <= owned <= accounts@.len(),
            ACCOUNTS_PER_INSTRUCTION <= accounts@.len(),
            signer < accounts@.len(),
            accounts@[signer as int].is_signer,
            owned_by(program_id@, accounts.deep_view(), i as int),
        decreases owned - i,
    {
        if accounts[i].owner != *program_id {
            assert(accounts.deep_view()[i as int].owner != program_id@);
            return Err(LedgerError::IncorrectOwner);
        }
        i += 1;
    }
    Ok(())
}

/// Checks that the account holds the balance that keeps its storage alive.
pub fn check_rent_exempt(account: &AccountInfo, rent_exempt_minimum: u64) -> (r: Result<
    (),
    LedgerError,
>)
    ensures
        r is Ok <==> account.lamports >= rent_exempt_minimum,
        r matches Err(e) ==> e == LedgerError::InsufficientStorageFunding,
{
    if account.lamports >= rent_exempt_minimum {
        Ok(())
    } else {
        Err(LedgerError::InsufficientStorageFunding)
    }
}

} // verus!
