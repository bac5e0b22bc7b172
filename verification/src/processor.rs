//! The four instructions. Each is a step from the accounts as they were to the
//! accounts as they are afterwards, together with what the step returns; a step
//! that is rejected returns the reason and leaves every account as it was.

use vstd::prelude::*;
use vstd::slice::slice_to_vec;
use crate::account::{
    check_rent_exempt, validate_accounts, validation_failure, AccountInfo, AccountView,
    ACCOUNTS_PER_INSTRUCTION,
};
use crate::error::LedgerError;
use crate::instruction::{InstructionView, ZenithCodeInstruction};
use crate::pubkey::Pubkey;
use crate::reward::{calculate_tokens_earned, tokens_earned};
use crate::state::{
    lemma_contribution_round_trip, lemma_user_account_parse_inverse,
    lemma_user_account_round_trip, PatternContribution, PatternContributionView, UserAccount,
    UserAccountView,
};
use crate::wire::{overwrite, overwritten};

verus! {

/// What the host knows and the program cannot compute: the balance that keeps
/// an account of the size of a user record alive, and the time.
#[derive(Clone, Copy, Debug, PartialEq, Eq, Structural)]
pub struct Sysvars {
    pub rent_exempt_minimum: u64,
    pub unix_timestamp: i64,
}

/// What an instruction did.
#[derive(Clone, Copy, Debug, PartialEq, Eq, Structural)]
pub enum Receipt {
    UserInitialized,
    ContributionRecorded { tokens_earned: u64 },
    TokensTransferred { amount: u64 },
    RewardsClaimed { tokens_earned: u64 },
}

/// The outcome of an instruction: what it returns, and the accounts after it.
pub struct Step<T> {
    pub result: Result<T, LedgerError>,
    pub accounts: Seq<AccountView>,
}

/// The outcome of an instruction that is refused.
pub open spec fn rejected<T>(accounts: Seq<AccountView>, error: LedgerError) -> Step<T> {
    Step { result: Err(error), accounts }
}

/// The account after `bytes` have been written over the start of its data.
pub open spec fn stored(account: AccountView, bytes: Seq<u8>) -> AccountView {
    AccountView {
        key: account.key,
        is_signer: account.is_signer,
        owner: account.owner,
        lamports: account.lamports,
        data: overwritten(account.data, bytes),
    }
}

/// The user record that the account at `index` stores, if it stores one.
pub open spec fn user_at(accounts: Seq<AccountView>, index: int) -> Option<UserAccountView> {
    if 0 <= index < accounts.len() {
        UserAccountView::parse(accounts[index].data)
    } else {
        None
    }
}

/// The record of a user who has just been created.
pub open spec fn fresh_user(owner: Seq<u8>) -> UserAccountView {
    UserAccountView {
        owner,
        zth_balance: 0,
        total_contributions: 0,
        total_tokens_earned: 0,
        is_initialized: true,
    }
}

/// The counters of `user` have room for one more contribution worth `tokens`.
pub open spec fn can_reward(user: UserAccountView, tokens: u64) -> bool {
    &&& user.zth_balance + tokens <= u64::MAX
    &&& user.total_contributions + 1 <= u32::MAX
    &&& user.total_tokens_earned + tokens <= u64::MAX
}

/// `user` after one more contribution worth `tokens`.
pub open spec fn rewarded(user: UserAccountView, tokens: u64) -> UserAccountView {
    UserAccountView {
        owner: user.owner,
        zth_balance: (user.zth_balance + tokens) as u64,
        total_contributions: (user.total_contributions + 1) as u32,
        total_tokens_earned: (user.total_tokens_earned + tokens) as u64,
        is_initialized: user.is_initialized,
    }
}

/// `user` with `amount` taken from the balance.
pub open spec fn debited(user: UserAccountView, amount: u64) -> UserAccountView {
    UserAccountView {
        owner: user.owner,
        zth_balance: (user.zth_balance - amount) as u64,
        total_contributions: user.total_contributions,
        total_tokens_earned: user.total_tokens_earned,
        is_initialized: user.is_initialized,
    }
}

/// `user` with `amount` added to the balance.
pub open spec fn credited(user: UserAccountView, amount: u64) -> UserAccountView {
    UserAccountView {
        owner: user.owner,
        zth_balance: (user.zth_balance + amount) as u64,
        total_contributions: user.total_contributions,
        total_tokens_earned: user.total_tokens_earned,
        is_initialized: user.is_initialized,
    }
}

/// The receipt that a contribution leaves behind.
pub open spec fn recorded_contribution(
    contributor: Seq<u8>,
    pattern_hash: Seq<u8>,
    language: Seq<char>,
    domain: Seq<char>,
    complexity: u8,
    now: i64,
) -> PatternContributionView {
    PatternContributionView {
        contributor,
        pattern_hash,
        language,
        domain,
        complexity,
        tokens_earned: tokens_earned(complexity) as u64,
        timestamp: now,
    }
}

/// InitializeUser on the accounts `[user, owner, rent]`: the owner must have
/// signed, the user account must belong to the program, be funded and have
/// room for a user record; it then stores a fresh record for the owner.
pub open spec fn initialize_user_step(
    program_id: Seq<u8>,
    accounts: Seq<AccountView>,
    rent_exempt_minimum: u64,
) -> Step<()> {
    match validation_failure(program_id, accounts, 1, 1) {
        Some(error) => rejected(accounts, error),
        None => if accounts[0].lamports < rent_exempt_minimum {
            rejected(accounts, LedgerError::InsufficientStorageFunding)
        } else if accounts[0].data.len() < 53 {
            rejected(accounts, LedgerError::BufferTooSmall)
        } else {
            Step {
                result: Ok(()),
                accounts: accounts.update(
                    0,
                    stored(accounts[0], fresh_user(accounts[1].key).wire()),
                ),
            }
        },
    }
}

/// ContributePattern on the accounts `[user, contributor, contribution]`: the
/// contributor must have signed and the user account must belong to the
/// program; the receipt must fit into the contribution account, and the user
/// record must decode and have room for the reward. The receipt is then
/// stored, the reward credited, and the reward returned.
pub open spec fn contribute_pattern_step(
    program_id: Seq<u8>,
    accounts: Seq<AccountView>,
    pattern_hash: Seq<u8>,
    language: Seq<char>,
    domain: Seq<char>,
    complexity: u8,
    now: i64,
) -> Step<u64> {
    match validation_failure(program_id, accounts, 1, 1) {
        Some(error) => rejected(accounts, error),
        None => {
            let receipt = recorded_contribution(
                accounts[1].key,
                pattern_hash,
                language,
                domain,
                complexity,
                now,
            );
            if !receipt.wf() || receipt.wire().len() > accounts[2].data.len() {
                rejected(accounts, LedgerError::BufferTooSmall)
            } else {
                match UserAccountView::parse(accounts[0].data) {
                    None => rejected(accounts, LedgerError::DecodeError),
                    Some(user) => if !can_reward(user, receipt.tokens_earned) {
                        rejected(accounts, LedgerError::InvalidAccountData)
                    } else {
                        Step {
                            result: Ok(receipt.tokens_earned),
                            accounts: accounts.update(
                                2,
                                stored(accounts[2], receipt.wire()),
                            ).update(
                                0,
                                stored(accounts[0], rewarded(user, receipt.tokens_earned).wire()),
                            ),
                        }
                    },
                }
            }
        },
    }
}

/// TransferTokens on the accounts `[from, to, owner of from]`: the owner must
/// have signed, both user accounts must belong to the program and decode, the
/// sender must hold `amount` and the receiver have room for it. The amount then
/// moves from the one balance to the other.
pub open spec fn transfer_tokens_step(
    program_id: Seq<u8>,
    accounts: Seq<AccountView>,
    amount: u64,
) -> Step<()> {
    match validation_failure(program_id, accounts, 2, 2) {
        Some(error) => rejected(accounts, error),
        None => match (
            UserAccountView::parse(accounts[0].data),
            UserAccountView::parse(accounts[1].data),
        ) {
            (Some(from), Some(to)) => if from.zth_balance < amount {
                rejected(accounts, LedgerError::InsufficientFunds)
            } else if to.zth_balance + amount > u64::MAX {
                rejected(accounts, LedgerError::InvalidAccountData)
            } else {
                Step {
                    result: Ok(()),
                    accounts: accounts.update(
                        0,
                        stored(accounts[0], debited(from, amount).wire()),
                    ).update(1, stored(accounts[1], credited(to, amount).wire())),
                }
            },
            _ => rejected(accounts, LedgerError::DecodeError),
        },
    }
}

/// ClaimRewards on the accounts `[user, contribution, owner]`: the owner must
/// have signed, the user account must belong to the program, and the
/// contribution must decode and be the owner's. The reward it records is
/// returned; nothing is written.
pub open spec fn claim_rewards_step(program_id: Seq<u8>, accounts: Seq<AccountView>) -> Step<u64> {
    match validation_failure(program_id, accounts, 2, 1) {
        Some(error) => rejected(accounts, error),
        None => match PatternContributionView::parse(accounts[1].data) {
            None => rejected(accounts, LedgerError::DecodeError),
            Some(receipt) => if receipt.contributor != accounts[2].key {
                rejected(accounts, LedgerError::InvalidAccountData)
            } else {
                Step { result: Ok(receipt.tokens_earned), accounts }
            },
        },
    }
}

/// The position of the account that has to sign an instruction.
pub open spec fn signer_position(instruction: InstructionView) -> int {
    match instruction {
        InstructionView::InitializeUser => 1,
        InstructionView::ContributePattern { .. } => 1,
        InstructionView::TransferTokens { .. } => 2,
        InstructionView::ClaimRewards { .. } => 2,
    }
}

/// A decoded instruction on its accounts.
pub open spec fn instruction_step(
    program_id: Seq<u8>,
    accounts: Seq<AccountView>,
    instruction: InstructionView,
    sysvars: Sysvars,
) -> Step<Receipt> {
    match instruction {
        InstructionView::InitializeUser => {
            let step = initialize_user_step(program_id, accounts, sysvars.rent_exempt_minimum);
            Step {
                result: match step.result {
                    Ok(_) => Ok(Receipt::UserInitialized),
                    Err(error) => Err(error),
                },
                accounts: step.accounts,
            }
        },
        InstructionView::ContributePattern { pattern_hash, language, domain, complexity } => {
            let step = contribute_pattern_step(
                program_id,
                accounts,
                pattern_hash,
                language,
                domain,
                complexity,
                sysvars.unix_timestamp,
            );
            Step {
                result: match step.result {
                    Ok(tokens_earned) => Ok(Receipt::ContributionRecorded { tokens_earned }),
                    Err(error) => Err(error),
                },
                accounts: step.accounts,
            }
        },
        InstructionView::TransferTokens { to, amount } => {
            let step = transfer_tokens_step(program_id, accounts, amount);
            Step {
                result: match step.result {
                    Ok(_) => Ok(Receipt::TokensTransferred { amount }),
                    Err(error) => Err(error),
                },
                accounts: step.accounts,
            }
        },
        InstructionView::ClaimRewards { contribution_id } => {
            let step = claim_rewards_step(program_id, accounts);
            Step {
                result: match step.result {
                    Ok(tokens_earned) => Ok(Receipt::RewardsClaimed { tokens_earned }),
                    Err(error) => Err(error),
                },
                accounts: step.accounts,
            }
        },
    }
}

/// A payload on its accounts: a payload that is no instruction is refused
/// before any account is looked at.
pub open spec fn payload_step(
    program_id: Seq<u8>,
    accounts: Seq<AccountView>,
    payload: Seq<u8>,
    sysvars: Sysvars,
) -> Step<Receipt> {
    match InstructionView::parse(payload) {
        None => rejected(accounts, LedgerError::InvalidInstructionData),
        Some(instruction) => instruction_step(program_id, accounts, instruction, sysvars),
    }
}

/// Writes `bytes` over the start of the data of the account at `index`.
fn store(accounts: &mut Vec<AccountInfo>, index: usize, bytes: &[u8])
    requires
        index < old(accounts)@.len(),
        bytes@.len() <= old(accounts)@[index as int].data@.len(),
    ensures
        final(accounts)@.len() == old(accounts)@.len(),
        forall|i: int|
            0 <= i < old(accounts)@.len() && i != index ==> final(accounts)@[i] == old(
                accounts,
            )@[i],
        final(accounts).deep_view() == old(accounts).deep_view().update(
            index as int,
            stored(old(accounts).deep_view()[index as int], bytes@),
        ),
{
    let account = &accounts[index];
    let key = account.key;
    let is_signer = account.is_signer;
    let owner = account.owner;
    let lamports = account.lamports;
    let mut data = slice_to_vec(account.data.as_slice());
    let _ = overwrite(&mut data, bytes);
    accounts.set(index, AccountInfo { key, is_signer, owner, lamports, data });
    assert(accounts.deep_view() =~~= old(accounts).deep_view().update(
        index as int,
        stored(old(accounts).deep_view()[index as int], bytes@),
    ));
}

/// InitializeUser: stores a fresh user record for the signer in the first
/// account. `rent_exempt_minimum` is the balance that keeps an account of the
/// size of a user record alive.
pub fn process_initialize_user(
    program_id: &Pubkey,
    accounts: &mut Vec<AccountInfo>,
    rent_exempt_minimum: u64,
) -> (r: Result<(), LedgerError>)
    ensures
        r == initialize_user_step(
            program_id@,
            old(accounts).deep_view(),
            rent_exempt_minimum,
        ).result,
        final(accounts).deep_view() == initialize_user_step(
            program_id@,
            old(accounts).deep_view(),
            rent_exempt_minimum,
        ).accounts,
        r is Ok && old(accounts)@[0].data@.len() == UserAccount::LEN ==> user_at(
            final(accounts).deep_view(),
            0,
        ) == Some(fresh_user(old(accounts).deep_view()[1].key)),
        r is Err ==> final(accounts).deep_view() == old(accounts).deep_view(),
        old(accounts)@.len() >= 3 && !old(accounts)@[1].is_signer ==> r == Err::<(), LedgerError>(
            LedgerError::MissingRequiredSignature,
        ),
{
    match validate_accounts(program_id, accounts, 1, 1) {
        Ok(()) => {},
        Err(e) => {
            return Err(e);
        },
    }
    match check_rent_exempt(&accounts[0], rent_exempt_minimum) {
        Ok(()) => {},
        Err(e) => {
            return Err(e);
        },
    }
    if accounts[0].data.len() < UserAccount::LEN {
        return Err(LedgerError::BufferTooSmall);
    }
    let user_data = UserAccount {
        owner: accounts[1].key,
        zth_balance: 0,
        total_contributions: 0,
        total_tokens_earned: 0,
        is_initialized: true,
    };
    let bytes = user_data.to_bytes();
    proof {
        if accounts@[0].data@.len() == UserAccount::LEN {
            lemma_initialize_creates(program_id@, accounts.deep_view(), rent_exempt_minimum);
        }
    }
    store(accounts, 0, bytes.as_slice());
    Ok(())
}

/// ContributePattern: stores the receipt of the contribution in the third
/// account, credits the reward to the user record in the first, and returns the
/// reward. `now` is the time that the receipt is stamped with.
pub fn process_contribute_pattern(
    program_id: &Pubkey,
    accounts: &mut Vec<AccountInfo>,
    pattern_hash: [u8; 32],
    language: String,
    domain: String,
    complexity: u8,
    now: i64,
) -> (r: Result<u64, LedgerError>)
    ensures
        r == contribute_pattern_step(
            program_id@,
            old(accounts).deep_view(),
            pattern_hash@,
            language@,
            domain@,
            complexity,
            now,
        ).result,
        final(accounts).deep_view() == contribute_pattern_step(
            program_id@,
            old(accounts).deep_view(),
            pattern_hash@,
            language@,
            domain@,
            complexity,
            now,
        ).accounts,
        r matches Ok(tokens) ==> tokens == tokens_earned(complexity) && user_at(
            old(accounts).deep_view(),
            0,
        ) is Some && user_at(final(accounts).deep_view(), 0) == Some(
            rewarded(user_at(old(accounts).deep_view(), 0)->Some_0, tokens),
        ),
        r is Err ==> final(accounts).deep_view() == old(accounts).deep_view(),
        old(accounts)@.len() >= 3 && !old(accounts)@[1].is_signer ==> r == Err::<u64, LedgerError>(
            LedgerError::MissingRequiredSignature,
        ),
{
    match validate_accounts(program_id, accounts, 1, 1) {
        Ok(()) => {},
        Err(e) => {
            return Err(e);
        },
    }
    let tokens_earned = calculate_tokens_earned(complexity);
    let contribution = PatternContribution {
        contributor: accounts[1].key,
        pattern_hash,
        language,
        domain,
        complexity,
        tokens_earned,
        timestamp: now,
    };
    let receipt_bytes = match contribution.to_bytes() {
        Ok(bytes) => bytes,
        Err(e) => {
            return Err(e);
        },
    };
    if receipt_bytes.len() > accounts[2].data.len() {
        return Err(LedgerError::BufferTooSmall);
    }
    let mut user_data = match UserAccount::try_from_slice(accounts[0].data.as_slice()) {
        Ok(user) => user,
        Err(e) => {
            return Err(e);
        },
    };
    if user_data.zth_balance > u64::MAX - tokens_earned || user_data.total_contributions
        == u32::MAX || user_data.total_tokens_earned > u64::MAX - tokens_earned {
        return Err(LedgerError::InvalidAccountData);
    }
    user_data.zth_balance = user_data.zth_balance + tokens_earned;
    user_data.total_contributions = user_data.total_contributions + 1;
    user_data.total_tokens_earned = user_data.total_tokens_earned + tokens_earned;
    let user_bytes = user_data.to_bytes();
    proof {
        lemma_contribution_credits(
            program_id@,
            accounts.deep_view(),
            pattern_hash@,
            contribution.language@,
            contribution.domain@,
            complexity,
            now,
        );
    }
    store(accounts, 2, receipt_bytes.as_slice());
    store(accounts, 0, user_bytes.as_slice());
    Ok(tokens_earned)
}

/// TransferTokens: moves `amount` from the user record in the first account to
/// the one in the second. The accounts alone say who receives; `to` is not read.
pub fn process_transfer_tokens(
    program_id: &Pubkey,
    accounts: &mut Vec<AccountInfo>,
    to: Pubkey,
    amount: u64,
) -> (r: Result<(), LedgerError>)
    ensures
        r == transfer_tokens_step(program_id@, old(accounts).deep_view(), amount).result,
        final(accounts).deep_view() == transfer_tokens_step(
            program_id@,
            old(accounts).deep_view(),
            amount,
        ).accounts,
        r is Ok ==> {
            let before = old(accounts).deep_view();
            let after = final(accounts).deep_view();
            &&& user_at(before, 0) is Some
            &&& user_at(before, 1) is Some
            &&& user_at(after, 0) == Some(debited(user_at(before, 0)->Some_0, amount))
            &&& user_at(after, 1) == Some(credited(user_at(before, 1)->Some_0, amount))
            &&& user_at(after, 0)->Some_0.zth_balance + user_at(after, 1)->Some_0.zth_balance
                == user_at(before, 0)->Some_0.zth_balance + user_at(
                before,
                1,
            )->Some_0.zth_balance
        },
        r is Err ==> final(accounts).deep_view() == old(accounts).deep_view(),
        ({
            let before = old(accounts).deep_view();
            &&& validation_failure(program_id@, before, 2, 2) is None
            &&& user_at(before, 0) is Some
            &&& user_at(before, 1) is Some
            &&& amount > user_at(before, 0)->Some_0.zth_balance
        }) ==> r == Err::<(), LedgerError>(LedgerError::InsufficientFunds),
        old(accounts)@.len() >= 3 && !old(accounts)@[2].is_signer ==> r == Err::<(), LedgerError>(
            LedgerError::MissingRequiredSignature,
        ),
{
    match validate_accounts(program_id, accounts, 2, 2) {
        Ok(()) => {},
        Err(e) => {
            return Err(e);
        },
    }
    let mut from_data = match UserAccount::try_from_slice(accounts[0].data.as_slice()) {
        Ok(user) => user,
        Err(e) => {
            return Err(e);
        },
    };
    let mut to_data = match UserAccount::try_from_slice(accounts[1].data.as_slice()) {
        Ok(user) => user,
        Err(e) => {
            return Err(e);
        },
    };
    if from_data.zth_balance < amount {
        return Err(LedgerError::InsufficientFunds);
    }
    if to_data.zth_balance > u64::MAX - amount {
        return Err(LedgerError::InvalidAccountData);
    }
    from_data.zth_balance = from_data.zth_balance - amount;
    to_data.zth_balance = to_data.zth_balance + amount;
    let from_bytes = from_data.to_bytes();
    let to_bytes = to_data.to_bytes();
    proof {
        lemma_transfer_conserves(program_id@, accounts.deep_view(), amount);
    }
    store(accounts, 0, from_bytes.as_slice());
    store(accounts, 1, to_bytes.as_slice());
    Ok(())
}

/// ClaimRewards: returns the reward that the receipt in the second account
/// records for the signer. Nothing is marked as claimed, so a claim can be
/// repeated; `contribution_id` is not read.
pub fn process_claim_rewards(
    program_id: &Pubkey,
    accounts: &mut Vec<AccountInfo>,
    contribution_id: u64,
) -> (r: Result<u64, LedgerError>)
    ensures
        r == claim_rewards_step(program_id@, old(accounts).deep_view()).result,
        final(accounts).deep_view() == old(accounts).deep_view(),
        old(accounts)@.len() >= 3 && !old(accounts)@[2].is_signer ==> r == Err::<u64, LedgerError>(
            LedgerError::MissingRequiredSignature,
        ),
{
    match validate_accounts(program_id, accounts, 2, 1) {
        Ok(()) => {},
        Err(e) => {
            return Err(e);
        },
    }
    let contribution = match PatternContribution::try_from_slice(accounts[1].data.as_slice()) {
        Ok(receipt) => receipt,
        Err(e) => {
            return Err(e);
        },
    };
    if contribution.contributor != accounts[2].key {
        return Err(LedgerError::InvalidAccountData);
    }
    Ok(contribution.tokens_earned)
}

/// Decodes the payload and carries out the instruction it holds.
pub fn process_instruction(
    program_id: &Pubkey,
    accounts: &mut Vec<AccountInfo>,
    instruction_data: &[u8],
    sysvars: &Sysvars,
) -> (r: Result<Receipt, LedgerError>)
    ensures
        r == payload_step(
            program_id@,
            old(accounts).deep_view(),
            instruction_data@,
            *sysvars,
        ).result,
        final(accounts).deep_view() == payload_step(
            program_id@,
            old(accounts).deep_view(),
            instruction_data@,
            *sysvars,
        ).accounts,
        r is Err ==> final(accounts).deep_view() == old(accounts).deep_view(),
        InstructionView::parse(instruction_data@) is None ==> r == Err::<Receipt, LedgerError>(
            LedgerError::InvalidInstructionData,
        ),
{
    let instruction = match ZenithCodeInstruction::try_from_slice(instruction_data) {
        Ok(instruction) => instruction,
        Err(_) => {
            return Err(LedgerError::InvalidInstructionData);
        },
    };
    match instruction {
        ZenithCodeInstruction::InitializeUser => {
            match process_initialize_user(program_id, accounts, sysvars.rent_exempt_minimum) {
                Ok(()) => Ok(Receipt::UserInitialized),
                Err(e) => Err(e),
            }
        },
        ZenithCodeInstruction::ContributePattern { pattern_hash, language, domain, complexity } => {
            match process_contribute_pattern(
                program_id,
                accounts,
                pattern_hash,
                language,
                domain,
                complexity,
                sysvars.unix_timestamp,
            ) {
                Ok(tokens_earned) => Ok(Receipt::ContributionRecorded { tokens_earned }),
                Err(e) => Err(e),
            }
        },
        ZenithCodeInstruction::TransferTokens { to, amount } => {
            match process_transfer_tokens(program_id, accounts, to, amount) {
                Ok(()) => Ok(Receipt::TokensTransferred { amount }),
                Err(e) => Err(e),
            }
        },
        ZenithCodeInstruction::ClaimRewards { contribution_id } => {
            match process_claim_rewards(program_id, accounts, contribution_id) {
                Ok(tokens_earned) => Ok(Receipt::RewardsClaimed { tokens_earned }),
                Err(e) => Err(e),
            }
        },
    }
}

/// After InitializeUser a user account of the size of a user record stores a
/// fresh record of the signer: no balance, no contributions, no earnings, and
/// marked as initialized.
pub proof fn lemma_initialize_creates(
    program_id: Seq<u8>,
    accounts: Seq<AccountView>,
    rent_exempt_minimum: u64,
)
    requires
        initialize_user_step(program_id, accounts, rent_exempt_minimum).result is Ok,
        accounts[0].data.len() == 53,
        accounts[1].key.len() == 32,
    ensures
        user_at(initialize_user_step(program_id, accounts, rent_exempt_minimum).accounts, 0)
            == Some(fresh_user(accounts[1].key)),
{
    let user = fresh_user(accounts[1].key);
    let after = initialize_user_step(program_id, accounts, rent_exempt_minimum).accounts;
    lemma_user_account_round_trip(user);
    assert(after[0].data =~= user.wire());
}

/// A contribution that succeeds credits the reward to the user once, counts
/// one contribution more, and leaves a receipt that decodes again if the
/// contribution account has exactly its size.
pub proof fn lemma_contribution_credits(
    program_id: Seq<u8>,
    accounts: Seq<AccountView>,
    pattern_hash: Seq<u8>,
    language: Seq<char>,
    domain: Seq<char>,
    complexity: u8,
    now: i64,
)
    requires
        contribute_pattern_step(
            program_id,
            accounts,
            pattern_hash,
            language,
            domain,
            complexity,
            now,
        ).result is Ok,
    ensures
        ({
            let step = contribute_pattern_step(
                program_id,
                accounts,
                pattern_hash,
                language,
                domain,
                complexity,
                now,
            );
            let receipt = recorded_contribution(
                accounts[1].key,
                pattern_hash,
                language,
                domain,
                complexity,
                now,
            );
            &&& step.result == Ok::<u64, LedgerError>(tokens_earned(complexity) as u64)
            &&& user_at(accounts, 0) is Some
            &&& user_at(step.accounts, 0) == Some(
                rewarded(user_at(accounts, 0)->Some_0, tokens_earned(complexity) as u64),
            )
            &&& accounts[2].data.len() == receipt.wire().len()
                ==> PatternContributionView::parse(step.accounts[2].data) == Some(receipt)
        }),
{
    let step = contribute_pattern_step(
        program_id,
        accounts,
        pattern_hash,
        language,
        domain,
        complexity,
        now,
    );
    let receipt = recorded_contribution(
        accounts[1].key,
        pattern_hash,
        language,
        domain,
        complexity,
        now,
    );
    let user = UserAccountView::parse(accounts[0].data)->Some_0;
    lemma_user_account_parse_inverse(accounts[0].data);
    lemma_user_account_round_trip(rewarded(user, receipt.tokens_earned));
    assert(step.accounts[0].data =~= rewarded(user, receipt.tokens_earned).wire());
    if accounts[2].data.len() == receipt.wire().len() {
        lemma_contribution_round_trip(receipt);
        assert(step.accounts[2].data =~= receipt.wire());
    }
}

/// A transfer that succeeds takes `amount` from the one balance and adds it to
/// the other: the two balances together are what they were.
pub proof fn lemma_transfer_conserves(program_id: Seq<u8>, accounts: Seq<AccountView>, amount: u64)
    requires
        transfer_tokens_step(program_id, accounts, amount).result is Ok,
    ensures
        ({
            let after = transfer_tokens_step(program_id, accounts, amount).accounts;
            &&& user_at(accounts, 0) is Some
            &&& user_at(accounts, 1) is Some
            &&& user_at(after, 0) == Some(debited(user_at(accounts, 0)->Some_0, amount))
            &&& user_at(after, 1) == Some(credited(user_at(accounts, 1)->Some_0, amount))
            &&& user_at(after, 0)->Some_0.zth_balance + user_at(after, 1)->Some_0.zth_balance
                == user_at(accounts, 0)->Some_0.zth_balance + user_at(
                accounts,
                1,
            )->Some_0.zth_balance
        }),
{
    let after = transfer_tokens_step(program_id, accounts, amount).accounts;
    let from = UserAccountView::parse(accounts[0].data)->Some_0;
    let to = UserAccountView::parse(accounts[1].data)->Some_0;
    lemma_user_account_parse_inverse(accounts[0].data);
    lemma_user_account_parse_inverse(accounts[1].data);
    lemma_user_account_round_trip(debited(from, amount));
    lemma_user_account_round_trip(credited(to, amount));
    assert(after[0].data =~= debited(from, amount).wire());
    assert(after[1].data =~= credited(to, amount).wire());
}

/// A transfer of more than the sender holds is refused for want of funds, and
/// no account changes.
pub proof fn lemma_overdraft_is_refused(program_id: Seq<u8>, accounts: Seq<AccountView>, amount: u64)
    requires
        validation_failure(program_id, accounts, 2, 2) is None,
        user_at(accounts, 0) is Some,
        user_at(accounts, 1) is Some,
        amount > user_at(accounts, 0)->Some_0.zth_balance,
    ensures
        transfer_tokens_step(program_id, accounts, amount) == rejected::<()>(
            accounts,
            LedgerError::InsufficientFunds,
        ),
{
}

/// An instruction whose signer did not sign is refused for that reason, and no
/// account changes.
pub proof fn lemma_signature_is_required(
    program_id: Seq<u8>,
    accounts: Seq<AccountView>,
    instruction: InstructionView,
    sysvars: Sysvars,
)
    requires
        accounts.len() >= ACCOUNTS_PER_INSTRUCTION,
        !accounts[signer_position(instruction)].is_signer,
    ensures
        instruction_step(program_id, accounts, instruction, sysvars) == rejected::<Receipt>(
            accounts,
            LedgerError::MissingRequiredSignature,
        ),
{
}

/// A claim changes nothing, so a claim that succeeded succeeds again, with the
/// same reward.
pub proof fn lemma_claim_repeats(program_id: Seq<u8>, accounts: Seq<AccountView>)
    requires
        claim_rewards_step(program_id, accounts).result is Ok,
    ensures
        claim_rewards_step(program_id, accounts).accounts == accounts,
        claim_rewards_step(program_id, claim_rewards_step(program_id, accounts).accounts)
            == claim_rewards_step(program_id, accounts),
{
}

/// A step that is refused leaves every account as it was.
pub proof fn lemma_refusal_changes_nothing(
    program_id: Seq<u8>,
    accounts: Seq<AccountView>,
    payload: Seq<u8>,
    sysvars: Sysvars,
)
    requires
        payload_step(program_id, accounts, payload, sysvars).result is Err,
    ensures
        payload_step(program_id, accounts, payload, sysvars).accounts == accounts,
{
}

} // verus!
