use credit_ledger::{ProgramError, UserAccount};

fn encode(account: UserAccount) -> Vec<u8> {
    let mut buffer = vec![0xAAu8; UserAccount::LEN];
    assert_eq!(UserAccount::pack(account, &mut buffer), Ok(()));
    buffer
}

#[test]
fn record_is_nine_bytes() {
    assert_eq!(UserAccount::LEN, 9);
    assert_eq!(encode(UserAccount::default()).len(), 9);
}

#[test]
fn default_record_is_unset_and_empty() {
    let account = UserAccount::default();
    assert_eq!(account, UserAccount { is_initialized: false, credits: 0 });
    assert!(!account.is_initialized());
}

#[test]
fn is_initialized_reads_the_flag() {
    assert!(UserAccount { is_initialized: true, credits: 0 }.is_initialized());
    assert!(!UserAccount { is_initialized: false, credits: 7 }.is_initialized());
}

#[test]
fn layout_is_flag_then_little_endian_balance() {
    let account = UserAccount { is_initialized: true, credits: 0x0102_0304_0506_0708 };
    assert_eq!(encode(account), vec![1, 8, 7, 6, 5, 4, 3, 2, 1]);
    let account = UserAccount { is_initialized: false, credits: 5 };
    assert_eq!(encode(account), vec![0, 5, 0, 0, 0, 0, 0, 0, 0]);
    let account = UserAccount { is_initialized: true, credits: u64::MAX };
    assert_eq!(encode(account), vec![1, 255, 255, 255, 255, 255, 255, 255, 255]);
}

#[test]
fn decoding_reads_little_endian_balance() {
    let bytes = [1u8, 0x10, 0x20, 0x30, 0x40, 0x50, 0x60, 0x70, 0x80];
    assert_eq!(
        UserAccount::unpack_from_slice(&bytes),
        Ok(UserAccount { is_initialized: true, credits: 0x8070_6050_4030_2010 })
    );
    let bytes = [0u8, 0, 1, 0, 0, 0, 0, 0, 0];
    assert_eq!(
        UserAccount::unpack_from_slice(&bytes),
        Ok(UserAccount { is_initialized: false, credits: 256 })
    );
}

#[test]
fn pack_then_unpack_gives_the_record_back() {
    let balances = [0u64, 1, 5, 10, 15, 255, 256, 65_535, 1 << 32, 0x0102_0304_0506_0708, u64::MAX - 1, u64::MAX];
    for &credits in balances.iter() {
        for &is_initialized in [false, true].iter() {
            let account = UserAccount { is_initialized, credits };
            let bytes = encode(account);
            assert_eq!(UserAccount::unpack_from_slice(&bytes), Ok(account));
            assert_eq!(UserAccount::unpack_unchecked(&bytes), Ok(account));
        }
    }
}

#[test]
fn unpack_then_pack_gives_canonical_bytes_back() {
    let bytes = [1u8, 9, 8, 7, 6, 5, 4, 3, 2];
    let account = UserAccount::unpack_from_slice(&bytes).unwrap();
    assert_eq!(encode(account), bytes.to_vec());
    let bytes = [0u8; 9];
    let account = UserAccount::unpack_from_slice(&bytes).unwrap();
    assert_eq!(encode(account), bytes.to_vec());
}

#[test]
fn any_nonzero_flag_byte_counts_as_set() {
    for flag in [1u8, 2, 0x80, 0xFF] {
        let bytes = [flag, 3, 0, 0, 0, 0, 0, 0, 0];
        let account = UserAccount::unpack_from_slice(&bytes).unwrap();
        assert_eq!(account, UserAccount { is_initialized: true, credits: 3 });
        assert_eq!(encode(account)[0], 1);
    }
}

#[test]
fn all_zero_buffer_decodes_to_the_default_record() {
    assert_eq!(UserAccount::unpack_from_slice(&[0u8; 9]), Ok(UserAccount::default()));
    assert_eq!(UserAccount::unpack_unchecked(&[0u8; 9]), Ok(UserAccount::default()));
}

#[test]
fn any_nine_bytes_decode() {
    let bytes = [0xFFu8; 9];
    assert_eq!(
        UserAccount::unpack_from_slice(&bytes),
        Ok(UserAccount { is_initialized: true, credits: u64::MAX })
    );
    let bytes = [0x5Au8, 0xDE, 0xAD, 0xBE, 0xEF, 0x00, 0x11, 0x22, 0x33];
    assert_eq!(
        UserAccount::unpack_from_slice(&bytes),
        Ok(UserAccount { is_initialized: true, credits: 0x3322_1100_EFBE_ADDE })
    );
}

#[test]
fn unpack_from_slice_turns_short_buffers_down() {
    assert_eq!(UserAccount::unpack_from_slice(&[]), Err(ProgramError::InvalidAccountData));
    assert_eq!(UserAccount::unpack_from_slice(&[1u8; 8]), Err(ProgramError::InvalidAccountData));
}

#[test]
fn unpack_from_slice_reads_the_first_nine_bytes_of_a_longer_buffer() {
    let bytes = [1u8, 5, 0, 0, 0, 0, 0, 0, 0, 0xEE, 0xEE];
    assert_eq!(
        UserAccount::unpack_from_slice(&bytes),
        Ok(UserAccount { is_initialized: true, credits: 5 })
    );
}

#[test]
fn pack_into_slice_turns_short_buffers_down_untouched() {
    let account = UserAccount { is_initialized: true, credits: 5 };
    let mut empty: [u8; 0] = [];
    assert_eq!(account.pack_into_slice(&mut empty), Err(ProgramError::InvalidAccountData));
    let mut short = [0x77u8; 8];
    assert_eq!(account.pack_into_slice(&mut short), Err(ProgramError::InvalidAccountData));
    assert_eq!(short, [0x77u8; 8]);
}

#[test]
fn pack_into_slice_leaves_the_rest_of_a_longer_buffer() {
    let account = UserAccount { is_initialized: true, credits: 0x0201 };
    let mut buffer = [0x77u8; 12];
    assert_eq!(account.pack_into_slice(&mut buffer), Ok(()));
    assert_eq!(buffer, [1, 1, 2, 0, 0, 0, 0, 0, 0, 0x77, 0x77, 0x77]);
}

#[test]
fn pack_into_slice_fills_an_exact_buffer() {
    let account = UserAccount { is_initialized: false, credits: 15 };
    let mut buffer = [0xFFu8; 9];
    assert_eq!(account.pack_into_slice(&mut buffer), Ok(()));
    assert_eq!(buffer, [0, 15, 0, 0, 0, 0, 0, 0, 0]);
}

#[test]
fn pack_wants_exactly_nine_bytes() {
    let account = UserAccount { is_initialized: true, credits: 5 };
    let mut short = [0x33u8; 8];
    assert_eq!(UserAccount::pack(account, &mut short), Err(ProgramError::InvalidAccountData));
    assert_eq!(short, [0x33u8; 8]);
    let mut long = [0x33u8; 10];
    assert_eq!(UserAccount::pack(account, &mut long), Err(ProgramError::InvalidAccountData));
    assert_eq!(long, [0x33u8; 10]);
    let mut exact = [0x33u8; 9];
    assert_eq!(UserAccount::pack(account, &mut exact), Ok(()));
    assert_eq!(exact, [1, 5, 0, 0, 0, 0, 0, 0, 0]);
}

#[test]
fn unpack_unchecked_wants_exactly_nine_bytes() {
    assert_eq!(UserAccount::unpack_unchecked(&[]), Err(ProgramError::InvalidAccountData));
    assert_eq!(UserAccount::unpack_unchecked(&[0u8; 8]), Err(ProgramError::InvalidAccountData));
    assert_eq!(UserAccount::unpack_unchecked(&[0u8; 10]), Err(ProgramError::InvalidAccountData));
    assert_eq!(
        UserAccount::unpack_unchecked(&[0, 10, 0, 0, 0, 0, 0, 0, 0]),
        Ok(UserAccount { is_initialized: false, credits: 10 })
    );
}

#[test]
fn unpack_turns_unwritten_records_down() {
    assert_eq!(UserAccount::unpack(&[0u8; 9]), Err(ProgramError::UninitializedAccount));
    assert_eq!(
        UserAccount::unpack(&[0, 10, 0, 0, 0, 0, 0, 0, 0]),
        Err(ProgramError::UninitializedAccount)
    );
}

#[test]
fn unpack_reads_written_records() {
    assert_eq!(
        UserAccount::unpack(&[1, 10, 0, 0, 0, 0, 0, 0, 0]),
        Ok(UserAccount { is_initialized: true, credits: 10 })
    );
}

#[test]
fn unpack_checks_the_size_before_the_flag() {
    assert_eq!(UserAccount::unpack(&[]), Err(ProgramError::InvalidAccountData));
    assert_eq!(UserAccount::unpack(&[0u8; 8]), Err(ProgramError::InvalidAccountData));
    assert_eq!(UserAccount::unpack(&[1u8; 10]), Err(ProgramError::InvalidAccountData));
}
