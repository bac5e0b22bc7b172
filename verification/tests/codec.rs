use zenith_ledger::state::{TRANSACTION_EARNED, TRANSACTION_SPENT, TRANSACTION_TRANSFERRED};
use zenith_ledger::wire::{
    overwrite, put_bytes, put_i64, put_string, put_u32, put_u64, read_bytes32, read_i64,
    read_string, read_u32, read_u64,
};
use zenith_ledger::{
    LedgerError, PatternContribution, Pubkey, TokenTransaction, UserAccount,
    ZenithCodeInstruction,
};

fn sample_user() -> UserAccount {
    UserAccount {
        owner: Pubkey([7u8; 32]),
        zth_balance: 40,
        total_contributions: 1,
        total_tokens_earned: 40,
        is_initialized: true,
    }
}

fn sample_user_bytes() -> Vec<u8> {
    let mut bytes = vec![7u8; 32];
    bytes.extend_from_slice(&[40, 0, 0, 0, 0, 0, 0, 0]);
    bytes.extend_from_slice(&[1, 0, 0, 0]);
    bytes.extend_from_slice(&[40, 0, 0, 0, 0, 0, 0, 0]);
    bytes.push(1);
    bytes
}

fn sample_contribution() -> PatternContribution {
    PatternContribution {
        contributor: Pubkey([2u8; 32]),
        pattern_hash: [0xabu8; 32],
        language: String::from("rust"),
        domain: String::from("parsing"),
        complexity: 7,
        tokens_earned: 40,
        timestamp: 1_700_000_000,
    }
}

fn sample_contribution_bytes() -> Vec<u8> {
    let mut bytes = vec![2u8; 32];
    bytes.extend_from_slice(&[0xabu8; 32]);
    bytes.extend_from_slice(&[4, 0, 0, 0]);
    bytes.extend_from_slice(b"rust");
    bytes.extend_from_slice(&[7, 0, 0, 0]);
    bytes.extend_from_slice(b"parsing");
    bytes.push(7);
    bytes.extend_from_slice(&[40, 0, 0, 0, 0, 0, 0, 0]);
    bytes.extend_from_slice(&1_700_000_000i64.to_le_bytes());
    bytes
}

#[test]
fn put_u32_is_little_endian() {
    let mut out = vec![9u8];
    put_u32(&mut out, 0x0102_0304);
    assert_eq!(out, vec![9, 4, 3, 2, 1]);
}

#[test]
fn put_u64_is_little_endian() {
    let mut out = Vec::new();
    put_u64(&mut out, 0x0102_0304_0506_0708);
    assert_eq!(out, vec![8, 7, 6, 5, 4, 3, 2, 1]);
    put_u64(&mut out, u64::MAX);
    assert_eq!(out.len(), 16);
    assert_eq!(&out[8..], &[0xff; 8]);
}

#[test]
fn put_i64_is_twos_complement() {
    let mut out = Vec::new();
    put_i64(&mut out, -2);
    assert_eq!(out, vec![0xfe, 0xff, 0xff, 0xff, 0xff, 0xff, 0xff, 0xff]);
    let mut low = Vec::new();
    put_i64(&mut low, i64::MIN);
    assert_eq!(low, vec![0, 0, 0, 0, 0, 0, 0, 0x80]);
    let mut one = Vec::new();
    put_i64(&mut one, 1);
    assert_eq!(one, vec![1, 0, 0, 0, 0, 0, 0, 0]);
}

#[test]
fn put_string_prefixes_the_byte_length() {
    let mut out = vec![5u8];
    assert_eq!(put_string(&mut out, &String::from("rust")), Ok(()));
    assert_eq!(out, vec![5, 4, 0, 0, 0, b'r', b'u', b's', b't']);
    let mut accented = Vec::new();
    assert_eq!(put_string(&mut accented, &String::from("\u{e9}")), Ok(()));
    assert_eq!(accented, vec![2, 0, 0, 0, 0xc3, 0xa9]);
    let mut empty = Vec::new();
    assert_eq!(put_string(&mut empty, &String::new()), Ok(()));
    assert_eq!(empty, vec![0, 0, 0, 0]);
}

#[test]
fn put_bytes_appends() {
    let mut out = vec![1u8, 2];
    put_bytes(&mut out, &[3, 4, 5]);
    assert_eq!(out, vec![1, 2, 3, 4, 5]);
    put_bytes(&mut out, &[]);
    assert_eq!(out, vec![1, 2, 3, 4, 5]);
}

#[test]
fn read_u32_at_a_position() {
    let input = [0xaa, 4, 3, 2, 1, 0xbb];
    assert_eq!(read_u32(&input, 1), Ok(0x0102_0304));
    assert_eq!(read_u32(&input, 2), Ok(0xbb01_0203));
    assert_eq!(read_u32(&input, 3), Err(LedgerError::DecodeError));
    assert_eq!(read_u32(&input, 7), Err(LedgerError::DecodeError));
    assert_eq!(read_u32(&input, usize::MAX), Err(LedgerError::DecodeError));
}

#[test]
fn read_u64_at_a_position() {
    let input = [0, 8, 7, 6, 5, 4, 3, 2, 1];
    assert_eq!(read_u64(&input, 1), Ok(0x0102_0304_0506_0708));
    assert_eq!(read_u64(&input, 0), Ok(0x0203_0405_0607_0800));
    assert_eq!(read_u64(&input, 2), Err(LedgerError::DecodeError));
}

#[test]
fn read_i64_at_a_position() {
    let input = [0xfe, 0xff, 0xff, 0xff, 0xff, 0xff, 0xff, 0xff, 0x7f];
    assert_eq!(read_i64(&input, 0), Ok(-2));
    assert_eq!(read_i64(&input, 1), Ok(i64::MAX));
    assert_eq!(read_i64(&input, 2), Err(LedgerError::DecodeError));
}

#[test]
fn read_string_at_a_position() {
    let input = [9, 4, 0, 0, 0, b'r', b'u', b's', b't', 1];
    assert_eq!(read_string(&input, 1), Ok((String::from("rust"), 9)));
    let accented = [2, 0, 0, 0, 0xc3, 0xa9];
    assert_eq!(read_string(&accented, 0), Ok((String::from("\u{e9}"), 6)));
    let empty = [0, 0, 0, 0];
    assert_eq!(read_string(&empty, 0), Ok((String::new(), 4)));
}

#[test]
fn read_string_rejects_what_is_no_string() {
    let short_prefix = [4, 0, 0];
    assert_eq!(read_string(&short_prefix, 0), Err(LedgerError::DecodeError));
    let short_body = [4, 0, 0, 0, b'r', b'u', b's'];
    assert_eq!(read_string(&short_body, 0), Err(LedgerError::DecodeError));
    let not_utf8 = [2, 0, 0, 0, 0xc3, 0x28];
    assert_eq!(read_string(&not_utf8, 0), Err(LedgerError::DecodeError));
    let huge = [0xff, 0xff, 0xff, 0xff, b'a'];
    assert_eq!(read_string(&huge, 0), Err(LedgerError::DecodeError));
    assert_eq!(read_string(&huge, 9), Err(LedgerError::DecodeError));
}

#[test]
fn read_bytes32_at_a_position() {
    let mut input = vec![0u8];
    input.extend_from_slice(&[5u8; 32]);
    assert_eq!(read_bytes32(&input, 1), Ok([5u8; 32]));
    assert_eq!(read_bytes32(&input, 2), Err(LedgerError::DecodeError));
    let mut mixed = [5u8; 32];
    mixed[0] = 0;
    assert_eq!(read_bytes32(&input, 0), Ok(mixed));
}

#[test]
fn overwrite_keeps_the_length_and_the_tail() {
    let mut data = vec![1u8, 2, 3, 4, 5];
    assert_eq!(overwrite(&mut data, &[9, 8]), Ok(()));
    assert_eq!(data, vec![9, 8, 3, 4, 5]);
    assert_eq!(overwrite(&mut data, &[0, 0, 0, 0, 0]), Ok(()));
    assert_eq!(data, vec![0u8; 5]);
}

#[test]
fn overwrite_refuses_what_does_not_fit() {
    let mut data = vec![1u8, 2, 3];
    assert_eq!(overwrite(&mut data, &[9, 9, 9, 9]), Err(LedgerError::BufferTooSmall));
    assert_eq!(data, vec![1, 2, 3]);
}

#[test]
fn user_account_has_53_bytes() {
    assert_eq!(UserAccount::LEN, 53);
    assert_eq!(UserAccount::LEN, 32 + 8 + 4 + 8 + 1);
    assert_eq!(sample_user().to_bytes().len(), UserAccount::LEN);
}

#[test]
fn user_account_layout() {
    assert_eq!(sample_user().to_bytes(), sample_user_bytes());
}

#[test]
fn user_account_round_trip() {
    let user = sample_user();
    assert_eq!(UserAccount::try_from_slice(&user.to_bytes()), Ok(user));
    let extreme = UserAccount {
        owner: Pubkey([0xff; 32]),
        zth_balance: u64::MAX,
        total_contributions: u32::MAX,
        total_tokens_earned: u64::MAX - 1,
        is_initialized: false,
    };
    assert_eq!(UserAccount::try_from_slice(&extreme.to_bytes()), Ok(extreme));
}

#[test]
fn user_account_matches_borsh() {
    let user = sample_user();
    let expected = borsh::to_vec(&(
        user.owner.0,
        user.zth_balance,
        user.total_contributions,
        user.total_tokens_earned,
        user.is_initialized,
    ))
    .unwrap();
    assert_eq!(user.to_bytes(), expected);
    let decoded =
        borsh::from_slice::<([u8; 32], u64, u32, u64, bool)>(&user.to_bytes()).unwrap();
    assert_eq!(decoded, ([7u8; 32], 40, 1, 40, true));
}

#[test]
fn user_account_rejects_wrong_lengths() {
    let bytes = sample_user_bytes();
    assert_eq!(UserAccount::try_from_slice(&bytes[..52]), Err(LedgerError::DecodeError));
    assert_eq!(UserAccount::try_from_slice(&[]), Err(LedgerError::DecodeError));
    let mut longer = bytes.clone();
    longer.push(0);
    assert_eq!(UserAccount::try_from_slice(&longer), Err(LedgerError::DecodeError));
}

#[test]
fn user_account_rejects_a_flag_that_is_no_flag() {
    let mut bytes = sample_user_bytes();
    bytes[52] = 2;
    assert_eq!(UserAccount::try_from_slice(&bytes), Err(LedgerError::DecodeError));
    bytes[52] = 0;
    assert_eq!(
        UserAccount::try_from_slice(&bytes),
        Ok(UserAccount { is_initialized: false, ..sample_user() })
    );
}

#[test]
fn user_account_serialize_into_storage() {
    let mut exact = vec![0u8; 53];
    assert_eq!(sample_user().serialize(&mut exact), Ok(()));
    assert_eq!(exact, sample_user_bytes());
    let mut larger = vec![0xeeu8; 60];
    assert_eq!(sample_user().serialize(&mut larger), Ok(()));
    assert_eq!(&larger[..53], &sample_user_bytes()[..]);
    assert_eq!(&larger[53..], &[0xee; 7]);
}

#[test]
fn user_account_serialize_needs_room() {
    let mut small = vec![0xeeu8; 52];
    assert_eq!(sample_user().serialize(&mut small), Err(LedgerError::BufferTooSmall));
    assert_eq!(small, vec![0xeeu8; 52]);
}

#[test]
fn contribution_layout() {
    assert_eq!(sample_contribution().to_bytes(), Ok(sample_contribution_bytes()));
    assert_eq!(sample_contribution_bytes().len(), 32 + 32 + 4 + 4 + 4 + 7 + 1 + 8 + 8);
}

#[test]
fn contribution_round_trip() {
    let bytes = sample_contribution().to_bytes().unwrap();
    assert_eq!(PatternContribution::try_from_slice(&bytes), Ok(sample_contribution()));
    let other = PatternContribution {
        contributor: Pubkey([0; 32]),
        pattern_hash: [1; 32],
        language: String::new(),
        domain: String::from("na\u{ef}ve \u{1f600}"),
        complexity: 255,
        tokens_earned: u64::MAX,
        timestamp: -1,
    };
    let bytes = other.to_bytes().unwrap();
    assert_eq!(PatternContribution::try_from_slice(&bytes), Ok(other));
}

#[test]
fn contribution_matches_borsh() {
    let record = sample_contribution();
    let expected = borsh::to_vec(&(
        record.contributor.0,
        record.pattern_hash,
        record.language.clone(),
        record.domain.clone(),
        record.complexity,
        record.tokens_earned,
        record.timestamp,
    ))
    .unwrap();
    assert_eq!(record.to_bytes(), Ok(expected));
}

#[test]
fn contribution_rejects_what_is_no_record() {
    let bytes = sample_contribution_bytes();
    for cut in [0usize, 31, 64, 67, 70, 75, 82, 83, 99] {
        assert_eq!(
            PatternContribution::try_from_slice(&bytes[..cut]),
            Err(LedgerError::DecodeError)
        );
    }
    let mut longer = bytes.clone();
    longer.push(0);
    assert_eq!(PatternContribution::try_from_slice(&longer), Err(LedgerError::DecodeError));
    let mut not_utf8 = bytes.clone();
    not_utf8[68] = 0xff;
    assert_eq!(PatternContribution::try_from_slice(&not_utf8), Err(LedgerError::DecodeError));
    let mut wrong_length = bytes.clone();
    wrong_length[64] = 5;
    assert_eq!(
        PatternContribution::try_from_slice(&wrong_length),
        Err(LedgerError::DecodeError)
    );
}

#[test]
fn contribution_serialize_into_storage() {
    let mut exact = vec![0u8; 100];
    assert_eq!(sample_contribution().serialize(&mut exact), Ok(()));
    assert_eq!(exact, sample_contribution_bytes());
    let mut small = vec![3u8; 99];
    assert_eq!(sample_contribution().serialize(&mut small), Err(LedgerError::BufferTooSmall));
    assert_eq!(small, vec![3u8; 99]);
}

#[test]
fn transaction_layout_and_round_trip() {
    let record = TokenTransaction {
        from: Pubkey([1; 32]),
        to: Pubkey([2; 32]),
        amount: 15,
        transaction_type: TRANSACTION_TRANSFERRED,
        timestamp: -5,
    };
    let mut expected = vec![1u8; 32];
    expected.extend_from_slice(&[2u8; 32]);
    expected.extend_from_slice(&[15, 0, 0, 0, 0, 0, 0, 0]);
    expected.push(2);
    expected.extend_from_slice(&[0xfb, 0xff, 0xff, 0xff, 0xff, 0xff, 0xff, 0xff]);
    assert_eq!(record.to_bytes(), expected);
    assert_eq!(TokenTransaction::LEN, 81);
    assert_eq!(TokenTransaction::try_from_slice(&expected), Ok(record));
    assert_eq!(
        borsh::to_vec(&([1u8; 32], [2u8; 32], 15u64, 2u8, -5i64)).unwrap(),
        expected
    );
}

#[test]
fn transaction_tags() {
    assert_eq!(TRANSACTION_EARNED, 0);
    assert_eq!(TRANSACTION_SPENT, 1);
    assert_eq!(TRANSACTION_TRANSFERRED, 2);
}

#[test]
fn transaction_rejects_wrong_lengths_and_needs_room() {
    let record = TokenTransaction {
        from: Pubkey([1; 32]),
        to: Pubkey([2; 32]),
        amount: 1,
        transaction_type: TRANSACTION_EARNED,
        timestamp: 0,
    };
    let bytes = record.to_bytes();
    assert_eq!(TokenTransaction::try_from_slice(&bytes[..80]), Err(LedgerError::DecodeError));
    let mut longer = bytes.clone();
    longer.push(0);
    assert_eq!(TokenTransaction::try_from_slice(&longer), Err(LedgerError::DecodeError));
    let mut small = vec![0u8; 80];
    assert_eq!(record.serialize(&mut small), Err(LedgerError::BufferTooSmall));
    assert_eq!(small, vec![0u8; 80]);
    let mut room = vec![9u8; 82];
    assert_eq!(record.serialize(&mut room), Ok(()));
    assert_eq!(&room[..81], &bytes[..]);
    assert_eq!(room[81], 9);
}

#[test]
fn instruction_payloads() {
    assert_eq!(ZenithCodeInstruction::InitializeUser.to_bytes(), Ok(vec![0]));
    let transfer = ZenithCodeInstruction::TransferTokens { to: Pubkey([6; 32]), amount: 15 };
    let mut expected = vec![2u8];
    expected.extend_from_slice(&[6u8; 32]);
    expected.extend_from_slice(&[15, 0, 0, 0, 0, 0, 0, 0]);
    assert_eq!(transfer.to_bytes(), Ok(expected));
    let claim = ZenithCodeInstruction::ClaimRewards { contribution_id: 0x0102 };
    assert_eq!(claim.to_bytes(), Ok(vec![3, 2, 1, 0, 0, 0, 0, 0, 0]));
    let contribute = ZenithCodeInstruction::ContributePattern {
        pattern_hash: [8; 32],
        language: String::from("go"),
        domain: String::from("io"),
        complexity: 3,
    };
    let mut expected = vec![1u8];
    expected.extend_from_slice(&[8u8; 32]);
    expected.extend_from_slice(&[2, 0, 0, 0, b'g', b'o', 2, 0, 0, 0, b'i', b'o', 3]);
    assert_eq!(contribute.to_bytes(), Ok(expected));
}

#[test]
fn instruction_round_trip() {
    let all = [
        ZenithCodeInstruction::InitializeUser,
        ZenithCodeInstruction::ContributePattern {
            pattern_hash: [8; 32],
            language: String::from("rust"),
            domain: String::from("\u{3b1}\u{3b2}"),
            complexity: 10,
        },
        ZenithCodeInstruction::TransferTokens { to: Pubkey([6; 32]), amount: u64::MAX },
        ZenithCodeInstruction::ClaimRewards { contribution_id: 77 },
    ];
    for instruction in all {
        let bytes = instruction.to_bytes().unwrap();
        assert_eq!(ZenithCodeInstruction::try_from_slice(&bytes), Ok(instruction));
    }
}

#[test]
fn instruction_matches_borsh() {
    let contribute = ZenithCodeInstruction::ContributePattern {
        pattern_hash: [8; 32],
        language: String::from("rust"),
        domain: String::from("parsing"),
        complexity: 7,
    };
    let mut expected = vec![1u8];
    expected.extend(
        borsh::to_vec(&([8u8; 32], String::from("rust"), String::from("parsing"), 7u8)).unwrap(),
    );
    assert_eq!(contribute.to_bytes(), Ok(expected));
}

#[test]
fn instruction_rejects_unknown_tags_and_bad_lengths() {
    assert_eq!(ZenithCodeInstruction::try_from_slice(&[]), Err(LedgerError::DecodeError));
    assert_eq!(ZenithCodeInstruction::try_from_slice(&[4]), Err(LedgerError::DecodeError));
    assert_eq!(ZenithCodeInstruction::try_from_slice(&[255]), Err(LedgerError::DecodeError));
    assert_eq!(ZenithCodeInstruction::try_from_slice(&[0, 0]), Err(LedgerError::DecodeError));
    assert_eq!(
        ZenithCodeInstruction::try_from_slice(&[3, 1, 0, 0, 0, 0, 0, 0]),
        Err(LedgerError::DecodeError)
    );
    assert_eq!(
        ZenithCodeInstruction::try_from_slice(&[3, 1, 0, 0, 0, 0, 0, 0, 0, 0]),
        Err(LedgerError::DecodeError)
    );
    assert_eq!(ZenithCodeInstruction::try_from_slice(&[2; 40]), Err(LedgerError::DecodeError));
    assert_eq!(ZenithCodeInstruction::try_from_slice(&[1; 33]), Err(LedgerError::DecodeError));
}

#[test]
fn pubkey_compares_by_bytes() {
    assert_eq!(Pubkey([1; 32]), Pubkey::new_from_array([1; 32]));
    let mut other = [1u8; 32];
    other[31] = 2;
    assert_ne!(Pubkey([1; 32]), Pubkey(other));
    assert_eq!(Pubkey(other).to_bytes(), other);
}
