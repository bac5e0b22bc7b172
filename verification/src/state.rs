//! The records that accounts hold, and the bytes they are stored as.
//!
//! A record decodes only from exactly the bytes it encodes to: input that is
//! shorter, longer, or holds a byte that no field can have, is rejected.

use vstd::prelude::*;
use crate::error::LedgerError;
use crate::pubkey::{lemma_pubkey_by_bytes, Pubkey};
use crate::wire::{
    i64_bits, i64_of_bits, le_bytes, le_value, lemma_i64_bits, lemma_i64_of_bits,
    lemma_le_bytes_len, lemma_le_bytes_of_value, lemma_le_limits, lemma_le_value_bound,
    lemma_le_value_of_bytes, lemma_string_at_inverse, lemma_string_at_wire, overwrite,
    overwritten, put_bytes, put_i64, put_string, put_u32, put_u64, read_bytes32, read_i64,
    read_string, read_u32, read_u64, string_at, string_fits, string_wire,
};

verus! {

/// Tag of a transaction that credits a reward.
pub const TRANSACTION_EARNED: u8 = 0;

/// Tag of a transaction that spends tokens.
pub const TRANSACTION_SPENT: u8 = 1;

/// Tag of a transaction that moves tokens between two users.
pub const TRANSACTION_TRANSFERRED: u8 = 2;

/// The byte a flag is stored as.
pub open spec fn flag_byte(flag: bool) -> u8 {
    if flag {
        1
    } else {
        0
    }
}

/// A participant's entry in the ledger.
#[derive(Clone, Copy, Debug, PartialEq, Eq)]
pub struct UserAccount {
    pub owner: Pubkey,
    pub zth_balance: u64,
    pub total_contributions: u32,
    pub total_tokens_earned: u64,
    pub is_initialized: bool,
}

/// What a `UserAccount` holds.
pub struct UserAccountView {
    pub owner: Seq<u8>,
    pub zth_balance: u64,
    pub total_contributions: u32,
    pub total_tokens_earned: u64,
    pub is_initialized: bool,
}

impl View for UserAccount {
    type V = UserAccountView;

    open spec fn view(&self) -> UserAccountView {
        UserAccountView {
            owner: self.owner@,
            zth_balance: self.zth_balance,
            total_contributions: self.total_contributions,
            total_tokens_earned: self.total_tokens_earned,
            is_initialized: self.is_initialized,
        }
    }
}

impl UserAccountView {
    pub open spec fn wf(self) -> bool {
        self.owner.len() == 32
    }

    /// The bytes of the record: owner, balance, number of contributions,
    /// lifetime earnings, and the flag.
    pub open spec fn wire(self) -> Seq<u8> {
        self.owner + le_bytes(self.zth_balance as nat, 8) + le_bytes(
            self.total_contributions as nat,
            4,
        ) + le_bytes(self.total_tokens_earned as nat, 8) + seq![flag_byte(self.is_initialized)]
    }

    /// The record that `bytes` are the bytes of, if there is one.
    pub open spec fn parse(bytes: Seq<u8>) -> Option<UserAccountView> {
        if bytes.len() == 53 && bytes[52] <= 1 {
            Some(
                UserAccountView {
                    owner: bytes.subrange(0, 32),
                    zth_balance: le_value(bytes.subrange(32, 40)) as u64,
                    total_contributions: le_value(bytes.subrange(40, 44)) as u32,
                    total_tokens_earned: le_value(bytes.subrange(44, 52)) as u64,
                    is_initialized: bytes[52] == 1,
                },
            )
        } else {
            None
        }
    }
}

/// Decoding the bytes of a user account gives the account back.
pub proof fn lemma_user_account_round_trip(record: UserAccountView)
    requires
        record.wf(),
    ensures
        record.wire().len() == 53,
        UserAccountView::parse(record.wire()) == Some(record),
{
    let bytes = record.wire();
    lemma_le_limits();
    lemma_le_bytes_len(record.zth_balance as nat, 8);
    lemma_le_bytes_len(record.total_contributions as nat, 4);
    lemma_le_bytes_len(record.total_tokens_earned as nat, 8);
    lemma_le_value_of_bytes(record.zth_balance as nat, 8);
    lemma_le_value_of_bytes(record.total_contributions as nat, 4);
    lemma_le_value_of_bytes(record.total_tokens_earned as nat, 8);
    assert(bytes.subrange(0, 32) =~= record.owner);
    assert(bytes.subrange(32, 40) =~= le_bytes(record.zth_balance as nat, 8));
    assert(bytes.subrange(40, 44) =~= le_bytes(record.total_contributions as nat, 4));
    assert(bytes.subrange(44, 52) =~= le_bytes(record.total_tokens_earned as nat, 8));
}

/// Bytes that decode to a user account are the bytes of that account.
pub proof fn lemma_user_account_parse_inverse(bytes: Seq<u8>)
    requires
        UserAccountView::parse(bytes) is Some,
    ensures
        UserAccountView::parse(bytes)->Some_0.wf(),
        UserAccountView::parse(bytes)->Some_0.wire() == bytes,
{
    let record = UserAccountView::parse(bytes)->Some_0;
    lemma_le_limits();
    lemma_le_value_bound(bytes.subrange(32, 40));
    lemma_le_value_bound(bytes.subrange(40, 44));
    lemma_le_value_bound(bytes.subrange(44, 52));
    lemma_le_bytes_of_value(bytes.subrange(32, 40));
    lemma_le_bytes_of_value(bytes.subrange(40, 44));
    lemma_le_bytes_of_value(bytes.subrange(44, 52));
    assert(record.wire() =~= bytes);
}

/// Two user accounts that hold the same are the same.
pub proof fn lemma_user_account_by_view(a: UserAccount, b: UserAccount)
    ensures
        a@.wf(),
        (a@ == b@) <==> a == b,
{
    lemma_pubkey_by_bytes(a.owner, b.owner);
}

impl UserAccount {
    /// Size of the stored record: owner, balance, contributions, earnings, flag.
    pub const LEN: usize = 32 + 8 + 4 + 8 + 1;

    /// The bytes of the record, which decode to the record again.
    pub fn to_bytes(&self) -> (bytes: Vec<u8>)
        ensures
            bytes@ == self@.wire(),
            bytes@.len() == 53,
            UserAccountView::parse(bytes@) == Some(self@),
    {
        let mut out: Vec<u8> = Vec::new();
        put_bytes(&mut out, self.owner.0.as_slice());
        put_u64(&mut out, self.zth_balance);
        put_u32(&mut out, self.total_contributions);
        put_u64(&mut out, self.total_tokens_earned);
        out.push(if self.is_initialized { 1u8 } else { 0u8 });
        proof {
            assert(out@ =~= self@.wire());
            lemma_user_account_round_trip(self@);
        }
        out
    }

    /// The record that `bytes` are the bytes of.
    pub fn try_from_slice(bytes: &[u8]) -> (r: Result<UserAccount, LedgerError>)
        ensures
            r is Ok <==> UserAccountView::parse(bytes@) is Some,
            r matches Ok(record) ==> Some(record@) == UserAccountView::parse(bytes@),
            r matches Err(e) ==> e == LedgerError::DecodeError,
    {
        if bytes.len() != 53 {
            return Err(LedgerError::DecodeError);
        }
        let owner = match read_bytes32(bytes, 0) {
            Ok(owner) => owner,
            Err(e) => {
                return Err(e);
            },
        };
        let zth_balance = match read_u64(bytes, 32) {
            Ok(value) => value,
            Err(e) => {
                return Err(e);
            },
        };
        let total_contributions = match read_u32(bytes, 40) {
            Ok(value) => value,
            Err(e) => {
                return Err(e);
            },
        };
        let total_tokens_earned = match read_u64(bytes, 44) {
            Ok(value) => value,
            Err(e) => {
                return Err(e);
            },
        };
        let flag = bytes[52];
        if flag > 1 {
            return Err(LedgerError::DecodeError);
        }
        Ok(
            UserAccount {
                owner: Pubkey(owner),
                zth_balance,
                total_contributions,
                total_tokens_earned,
                is_initialized: flag == 1,
            },
        )
    }

    /// Stores the record at the start of `data`, if it fits.
    pub fn serialize(&self, data: &mut Vec<u8>) -> (done: Result<(), LedgerError>)
        ensures
            done is Ok <==> 53 <= old(data)@.len(),
            done is Ok ==> final(data)@ == overwritten(old(data)@, self@.wire()),
            done matches Err(e) ==> e == LedgerError::BufferTooSmall && final(data)@ == old(
                data,
            )@,
    {
        let bytes = self.to_bytes();
        overwrite(data, bytes.as_slice())
    }
}

/// The receipt of one contribution.
#[derive(Clone, Debug, PartialEq, Eq)]
pub struct PatternContribution {
    pub contributor: Pubkey,
    pub pattern_hash: [u8; 32],
    pub language: String,
    pub domain: String,
    pub complexity: u8,
    pub tokens_earned: u64,
    pub timestamp: i64,
}

/// What a `PatternContribution` holds.
pub struct PatternContributionView {
    pub contributor: Seq<u8>,
    pub pattern_hash: Seq<u8>,
    pub language: Seq<char>,
    pub domain: Seq<char>,
    pub complexity: u8,
    pub tokens_earned: u64,
    pub timestamp: i64,
}

impl View for PatternContribution {
    type V = PatternContributionView;

    open spec fn view(&self) -> PatternContributionView {
        PatternContributionView {
            contributor: self.contributor@,
            pattern_hash: self.pattern_hash@,
            language: self.language@,
            domain: self.domain@,
            complexity: self.complexity,
            tokens_earned: self.tokens_earned,
            timestamp: self.timestamp,
        }
    }
}

impl PatternContributionView {
    /// Both strings must be short enough for their length prefix.
    pub open spec fn wf(self) -> bool {
        &&& self.contributor.len() == 32
        &&& self.pattern_hash.len() == 32
        &&& string_fits(self.language)
        &&& string_fits(self.domain)
    }

    /// The bytes of the record: contributor, hash, the two strings, complexity,
    /// reward and time.
    pub open spec fn wire(self) -> Seq<u8> {
        self.contributor + self.pattern_hash + string_wire(self.language) + string_wire(
            self.domain,
        ) + seq![self.complexity] + le_bytes(self.tokens_earned as nat, 8) + le_bytes(
            i64_bits(self.timestamp),
            8,
        )
    }

    /// The record that `bytes` are the bytes of, if there is one.
    pub open spec fn parse(bytes: Seq<u8>) -> Option<PatternContributionView> {
        match string_at(bytes, 64) {
            Some((language, after_language)) => match string_at(bytes, after_language) {
                Some((domain, tail)) => if bytes.len() == tail + 17 {
                    Some(
                        PatternContributionView {
                            contributor: bytes.subrange(0, 32),
                            pattern_hash: bytes.subrange(32, 64),
                            language,
                            domain,
                            complexity: bytes[tail],
                            tokens_earned: le_value(bytes.subrange(tail + 1, tail + 9)) as u64,
                            timestamp: i64_of_bits(le_value(bytes.subrange(tail + 9, tail + 17))),
                        },
                    )
                } else {
                    None
                },
                None => None,
            },
            None => None,
        }
    }
}

/// Decoding the bytes of a contribution gives the contribution back.
pub proof fn lemma_contribution_round_trip(record: PatternContributionView)
    requires
        record.wf(),
    ensures
        PatternContributionView::parse(record.wire()) == Some(record),
{
    let bytes = record.wire();
    let head = record.contributor + record.pattern_hash;
    let language = string_wire(record.language);
    let domain = string_wire(record.domain);
    let tail = seq![record.complexity] + le_bytes(record.tokens_earned as nat, 8) + le_bytes(
        i64_bits(record.timestamp),
        8,
    );
    lemma_le_limits();
    lemma_le_bytes_len(record.tokens_earned as nat, 8);
    lemma_le_bytes_len(i64_bits(record.timestamp), 8);
    lemma_le_value_of_bytes(record.tokens_earned as nat, 8);
    lemma_i64_bits(record.timestamp);
    lemma_le_value_of_bytes(i64_bits(record.timestamp), 8);
    lemma_string_at_wire(head, record.language, domain + tail);
    lemma_string_at_wire(head + language, record.domain, tail);
    assert(bytes =~= head + language + (domain + tail));
    assert(bytes =~= head + language + domain + tail);
    let end = (64 + language.len() + domain.len()) as int;
    assert(bytes.subrange(0, 32) =~= record.contributor);
    assert(bytes.subrange(32, 64) =~= record.pattern_hash);
    assert(bytes.subrange(end + 1, end + 9) =~= le_bytes(record.tokens_earned as nat, 8));
    assert(bytes.subrange(end + 9, end + 17) =~= le_bytes(i64_bits(record.timestamp), 8));
}

/// Bytes that decode to a contribution are the bytes of that contribution.
pub proof fn lemma_contribution_parse_inverse(bytes: Seq<u8>)
    requires
        PatternContributionView::parse(bytes) is Some,
    ensures
        PatternContributionView::parse(bytes)->Some_0.wf(),
        PatternContributionView::parse(bytes)->Some_0.wire() == bytes,
{
    let record = PatternContributionView::parse(bytes)->Some_0;
    let after_language = string_at(bytes, 64)->Some_0.1;
    let tail = string_at(bytes, after_language)->Some_0.1;
    lemma_string_at_inverse(bytes, 64);
    lemma_string_at_inverse(bytes, after_language);
    lemma_le_limits();
    lemma_le_value_bound(bytes.subrange(tail + 1, tail + 9));
    lemma_le_value_bound(bytes.subrange(tail + 9, tail + 17));
    lemma_le_bytes_of_value(bytes.subrange(tail + 1, tail + 9));
    lemma_le_bytes_of_value(bytes.subrange(tail + 9, tail + 17));
    lemma_i64_of_bits(le_value(bytes.subrange(tail + 9, tail + 17)));
    assert(record.wire() =~= bytes.subrange(0, 32) + bytes.subrange(32, 64) + bytes.subrange(
        64,
        after_language,
    ) + bytes.subrange(after_language, tail) + seq![bytes[tail]] + bytes.subrange(
        tail + 1,
        tail + 9,
    ) + bytes.subrange(tail + 9, tail + 17));
    assert(record.wire() =~= bytes);
}

impl PatternContribution {
    /// The bytes of the record, which decode to the record again;
    /// `BufferTooSmall` if one of its strings is too long to be stored at all.
    pub fn to_bytes(&self) -> (r: Result<Vec<u8>, LedgerError>)
        ensures
            r is Ok <==> self@.wf(),
            r matches Ok(bytes) ==> bytes@ == self@.wire() && PatternContributionView::parse(
                bytes@,
            ) == Some(self@),
            r matches Err(e) ==> e == LedgerError::BufferTooSmall,
    {
        let mut out: Vec<u8> = Vec::new();
        put_bytes(&mut out, self.contributor.0.as_slice());
        put_bytes(&mut out, self.pattern_hash.as_slice());
        match put_string(&mut out, &self.language) {
            Ok(()) => {},
            Err(e) => {
                return Err(e);
            },
        }
        match put_string(&mut out, &self.domain) {
            Ok(()) => {},
            Err(e) => {
                return Err(e);
            },
        }
        out.push(self.complexity);
        put_u64(&mut out, self.tokens_earned);
        put_i64(&mut out, self.timestamp);
        proof {
            assert(out@ =~= self@.wire());
            lemma_contribution_round_trip(self@);
        }
        Ok(out)
    }

    /// The record that `bytes` are the bytes of.
    pub fn try_from_slice(bytes: &[u8]) -> (r: Result<PatternContribution, LedgerError>)
        ensures
            r is Ok <==> PatternContributionView::parse(bytes@) is Some,
            r matches Ok(record) ==> Some(record@) == PatternContributionView::parse(bytes@),
            r matches Err(e) ==> e == LedgerError::DecodeError,
    {
        let contributor = match read_bytes32(bytes, 0) {
            Ok(key) => key,
            Err(e) => {
                return Err(e);
            },
        };
        let pattern_hash = match read_bytes32(bytes, 32) {
            Ok(hash) => hash,
            Err(e) => {
                return Err(e);
            },
        };
        let (language, after_language) = match read_string(bytes, 64) {
            Ok(found) => found,
            Err(e) => {
                return Err(e);
            },
        };
        let (domain, tail) = match read_string(bytes, after_language) {
            Ok(found) => found,
            Err(e) => {
                return Err(e);
            },
        };
        if bytes.len() - tail != 17 {
            return Err(LedgerError::DecodeError);
        }
        let complexity = bytes[tail];
        let tokens_earned = match read_u64(bytes, tail + 1) {
            Ok(value) => value,
            Err(e) => {
                return Err(e);
            },
        };
        let timestamp = match read_i64(bytes, tail + 9) {
            Ok(value) => value,
            Err(e) => {
                return Err(e);
            },
        };
        Ok(
            PatternContribution {
                contributor: Pubkey(contributor),
                pattern_hash,
                language,
                domain,
                complexity,
                tokens_earned,
                timestamp,
            },
        )
    }

    /// Stores the record at the start of `data`, if it can be stored and fits.
    pub fn serialize(&self, data: &mut Vec<u8>) -> (done: Result<(), LedgerError>)
        ensures
            done is Ok <==> self@.wf() && self@.wire().len() <= old(data)@.len(),
            done is Ok ==> final(data)@ == overwritten(old(data)@, self@.wire()),
            done matches Err(e) ==> e == LedgerError::BufferTooSmall && final(data)@ == old(
                data,
            )@,
    {
        match self.to_bytes() {
            Ok(bytes) => overwrite(data, bytes.as_slice()),
            Err(e) => Err(e),
        }
    }
}

/// An entry of the audit trail of balance movements.
#[derive(Clone, Copy, Debug, PartialEq, Eq)]
pub struct TokenTransaction {
    pub from: Pubkey,
    pub to: Pubkey,
    pub amount: u64,
    pub transaction_type: u8,
    pub timestamp: i64,
}

/// What a `TokenTransaction` holds.
pub struct TokenTransactionView {
    pub from: Seq<u8>,
    pub to: Seq<u8>,
    pub amount: u64,
    pub transaction_type: u8,
    pub timestamp: i64,
}

impl View for TokenTransaction {
    type V = TokenTransactionView;

    open spec fn view(&self) -> TokenTransactionView {
        TokenTransactionView {
            from: self.from@,
            to: self.to@,
            amount: self.amount,
            transaction_type: self.transaction_type,
            timestamp: self.timestamp,
        }
    }
}

impl TokenTransactionView {
    pub open spec fn wf(self) -> bool {
        self.from.len() == 32 && self.to.len() == 32
    }

    /// The bytes of the record: sender, receiver, amount, tag and time.
    pub open spec fn wire(self) -> Seq<u8> {
        self.from + self.to + le_bytes(self.amount as nat, 8) + seq![self.transaction_type]
            + le_bytes(i64_bits(self.timestamp), 8)
    }

    /// The record that `bytes` are the bytes of, if there is one.
    pub open spec fn parse(bytes: Seq<u8>) -> Option<TokenTransactionView> {
        if bytes.len() == 81 {
            Some(
                TokenTransactionView {
                    from: bytes.subrange(0, 32),
                    to: bytes.subrange(32, 64),
                    amount: le_value(bytes.subrange(64, 72)) as u64,
                    transaction_type: bytes[72],
                    timestamp: i64_of_bits(le_value(bytes.subrange(73, 81))),
                },
            )
        } else {
            None
        }
    }
}

/// Decoding the bytes of a transaction gives the transaction back.
pub proof fn lemma_transaction_round_trip(record: TokenTransactionView)
    requires
        record.wf(),
    ensures
        record.wire().len() == 81,
        TokenTransactionView::parse(record.wire()) == Some(record),
{
    let bytes = record.wire();
    lemma_le_limits();
    lemma_le_bytes_len(record.amount as nat, 8);
    lemma_le_bytes_len(i64_bits(record.timestamp), 8);
    lemma_le_value_of_bytes(record.amount as nat, 8);
    lemma_i64_bits(record.timestamp);
    lemma_le_value_of_bytes(i64_bits(record.timestamp), 8);
    assert(bytes.subrange(0, 32) =~= record.from);
    assert(bytes.subrange(32, 64) =~= record.to);
    assert(bytes.subrange(64, 72) =~= le_bytes(record.amount as nat, 8));
    assert(bytes.subrange(73, 81) =~= le_bytes(i64_bits(record.timestamp), 8));
}

/// Bytes that decode to a transaction are the bytes of that transaction.
pub proof fn lemma_transaction_parse_inverse(bytes: Seq<u8>)
    requires
        TokenTransactionView::parse(bytes) is Some,
    ensures
        TokenTransactionView::parse(bytes)->Some_0.wf(),
        TokenTransactionView::parse(bytes)->Some_0.wire() == bytes,
{
    let record = TokenTransactionView::parse(bytes)->Some_0;
    lemma_le_limits();
    lemma_le_value_bound(bytes.subrange(64, 72));
    lemma_le_value_bound(bytes.subrange(73, 81));
    lemma_le_bytes_of_value(bytes.subrange(64, 72));
    lemma_le_bytes_of_value(bytes.subrange(73, 81));
    lemma_i64_of_bits(le_value(bytes.subrange(73, 81)));
    assert(record.wire() =~= bytes);
}

impl TokenTransaction {
    /// Size of the stored record: two identities, amount, tag, time.
    pub const LEN: usize = 32 + 32 + 8 + 1 + 8;

    /// The bytes of the record, which decode to the record again.
    pub fn to_bytes(&self) -> (bytes: Vec<u8>)
        ensures
            bytes@ == self@.wire(),
            bytes@.len() == 81,
            TokenTransactionView::parse(bytes@) == Some(self@),
    {
        let mut out: Vec<u8> = Vec::new();
        put_bytes(&mut out, self.from.0.as_slice());
        put_bytes(&mut out, self.to.0.as_slice());
        put_u64(&mut out, self.amount);
        out.push(self.transaction_type);
        put_i64(&mut out, self.timestamp);
        proof {
            assert(out@ =~= self@.wire());
            lemma_transaction_round_trip(self@);
        }
        out
    }

    /// The record that `bytes` are the bytes of.
    pub fn try_from_slice(bytes: &[u8]) -> (r: Result<TokenTransaction, LedgerError>)
        ensures
            r is Ok <==> TokenTransactionView::parse(bytes@) is Some,
            r matches Ok(record) ==> Some(record@) == TokenTransactionView::parse(bytes@),
            r matches Err(e) ==> e == LedgerError::DecodeError,
    {
        if bytes.len() != 81 {
            return Err(LedgerError::DecodeError);
        }
        let from = match read_bytes32(bytes, 0) {
            Ok(key) => key,
            Err(e) => {
                return Err(e);
            },
        };
        let to = match read_bytes32(bytes, 32) {
            Ok(key) => key,
            Err(e) => {
                return Err(e);
            },
        };
        let amount = match read_u64(bytes, 64) {
            Ok(value) => value,
            Err(e) => {
                return Err(e);
            },
        };
        let transaction_type = bytes[72];
        let timestamp = match read_i64(bytes, 73) {
            Ok(value) => value,
            Err(e) => {
                return Err(e);
            },
        };
        Ok(TokenTransaction { from: Pubkey(from), to: Pubkey(to), amount, transaction_type, timestamp })
    }

    /// Stores the record at the start of `data`, if it fits.
    pub fn serialize(&self, data: &mut Vec<u8>) -> (done: Result<(), LedgerError>)
        ensures
            done is Ok <==> 81 <= old(data)@.len(),
            done is Ok ==> final(data)@ == overwritten(old(data)@, self@.wire()),
            done matches Err(e) ==> e == LedgerError::BufferTooSmall && final(data)@ == old(
                data,
            )@,
    {
        let bytes = self.to_bytes();
        overwrite(data, bytes.as_slice())
    }
}

} // verus!
