use ledger_control::account::AccountRecord;
use ledger_control::keys::Pubkey;
use ledger_control::token::{
    build_token_account, edit_record, new_record, pack_record, token_program_id, unpack_record,
    AccountState, CodecError, TokenRecord, TOKEN_ACCOUNT_LEN,
};
use solana_sdk::program_pack::Pack;

fn sample_record() -> TokenRecord {
    TokenRecord {
        mint: Pubkey::new_from_array([7u8; 32]),
        owner: Pubkey::new_from_array([9u8; 32]),
        amount: 0x0102_0304_0506_0708,
        delegate: None,
        state: AccountState::Initialized,
        is_native: Some(5),
        delegated_amount: 3,
        close_authority: Some(Pubkey::new_from_array([1u8; 32])),
    }
}

#[test]
fn token_program_id_has_the_known_bytes() {
    let id = token_program_id();
    let expected: [u8; 32] = [
        6, 221, 246, 225, 215, 101, 161, 147, 217, 203, 225, 70, 206, 235, 121, 172, 28, 180, 133,
        237, 95, 91, 55, 145, 58, 140, 245, 133, 126, 255, 0, 169,
    ];
    assert_eq!(id.to_bytes(), expected);
    assert_eq!(id.to_bytes(), spl_token::id().to_bytes());
}

#[test]
fn packed_record_has_every_field_at_its_offset() {
    let record = sample_record();
    let data = pack_record(&record).unwrap();
    assert_eq!(data.len(), 165);
    assert_eq!(data.len(), TOKEN_ACCOUNT_LEN);
    assert_eq!(&data[0..32], &[7u8; 32]);
    assert_eq!(&data[32..64], &[9u8; 32]);
    assert_eq!(&data[64..72], &[8u8, 7, 6, 5, 4, 3, 2, 1]);
    assert_eq!(&data[72..76], &[0u8, 0, 0, 0]);
    assert_eq!(&data[76..108], &[0u8; 32]);
    assert_eq!(data[108], 1);
    assert_eq!(&data[109..113], &[1u8, 0, 0, 0]);
    assert_eq!(&data[113..121], &[5u8, 0, 0, 0, 0, 0, 0, 0]);
    assert_eq!(&data[121..129], &[3u8, 0, 0, 0, 0, 0, 0, 0]);
    assert_eq!(&data[129..133], &[1u8, 0, 0, 0]);
    assert_eq!(&data[133..165], &[1u8; 32]);
}

#[test]
fn packed_record_unpacks_to_itself() {
    let record = sample_record();
    let data = pack_record(&record).unwrap();
    assert_eq!(unpack_record(&data), Ok(record));
}

#[test]
fn packed_record_is_what_the_token_program_reads() {
    let record = sample_record();
    let data = pack_record(&record).unwrap();
    let read = spl_token::state::Account::unpack(&data).unwrap();
    assert_eq!(read.mint.to_bytes(), [7u8; 32]);
    assert_eq!(read.owner.to_bytes(), [9u8; 32]);
    assert_eq!(read.amount, 0x0102_0304_0506_0708);
    assert!(read.delegate.is_none());
    assert_eq!(read.state, spl_token::state::AccountState::Initialized);
    assert_eq!(Option::<u64>::from(read.is_native), Some(5));
    assert_eq!(read.delegated_amount, 3);
    assert!(read.close_authority.is_some());
}

#[test]
fn frozen_state_round_trips() {
    let mut record = sample_record();
    record.state = AccountState::Frozen;
    record.delegate = Some(Pubkey::new_from_array([4u8; 32]));
    record.is_native = None;
    let data = pack_record(&record).unwrap();
    assert_eq!(data[108], 2);
    assert_eq!(&data[72..76], &[1u8, 0, 0, 0]);
    assert_eq!(&data[76..108], &[4u8; 32]);
    assert_eq!(&data[109..121], &[0u8; 12]);
    assert_eq!(unpack_record(&data), Ok(record));
}

#[test]
fn unpack_refuses_wrong_length() {
    assert_eq!(unpack_record(&[0u8; 164]), Err(CodecError::InvalidAccountData));
    assert_eq!(unpack_record(&[0u8; 166]), Err(CodecError::InvalidAccountData));
    assert_eq!(unpack_record(&[]), Err(CodecError::InvalidAccountData));
}

#[test]
fn unpack_refuses_uninitialized_account() {
    assert_eq!(unpack_record(&[0u8; 165]), Err(CodecError::UninitializedAccount));
    let mut record = sample_record();
    record.state = AccountState::Uninitialized;
    let data = pack_record(&record).unwrap();
    assert_eq!(data[108], 0);
    assert_eq!(unpack_record(&data), Err(CodecError::UninitializedAccount));
}

#[test]
fn unpack_refuses_unknown_state_byte() {
    let mut data = pack_record(&sample_record()).unwrap();
    data[108] = 3;
    assert_eq!(unpack_record(&data), Err(CodecError::InvalidAccountData));
}

#[test]
fn unpack_refuses_unknown_tags() {
    let packed = pack_record(&sample_record()).unwrap();
    for offset in [72usize, 109, 129] {
        let mut data = packed.clone();
        data[offset] = 2;
        assert_eq!(unpack_record(&data), Err(CodecError::InvalidAccountData));
        let mut data = packed.clone();
        data[offset + 1] = 1;
        assert_eq!(unpack_record(&data), Err(CodecError::InvalidAccountData));
    }
}

#[test]
fn unpack_ignores_bytes_behind_an_absent_tag() {
    let mut data = pack_record(&sample_record()).unwrap();
    data[80] = 0xaa;
    let record = unpack_record(&data).unwrap();
    assert_eq!(record, sample_record());
    assert_eq!(record.delegate, None);
}

#[test]
fn new_record_is_initialized_and_empty() {
    let mint = Pubkey::new_from_array([2u8; 32]);
    let owner = Pubkey::new_from_array([3u8; 32]);
    let record = new_record(&mint, &owner, None);
    assert_eq!(
        record,
        TokenRecord {
            mint,
            owner,
            amount: 0,
            delegate: None,
            state: AccountState::Initialized,
            is_native: None,
            delegated_amount: 0,
            close_authority: None,
        }
    );
    assert_eq!(new_record(&mint, &owner, Some(17)).amount, 17);
}

#[test]
fn edit_record_replaces_only_what_is_given() {
    let start = sample_record();
    let other = Pubkey::new_from_array([0xeeu8; 32]);

    let mut record = start;
    edit_record(&mut record, None, None, None);
    assert_eq!(record, start);

    let mut record = start;
    edit_record(&mut record, Some(&other), None, None);
    assert_eq!(record, TokenRecord { owner: other, ..start });

    let mut record = start;
    edit_record(&mut record, None, Some(&other), None);
    assert_eq!(record, TokenRecord { mint: other, ..start });

    let mut record = start;
    edit_record(&mut record, None, None, Some(1));
    assert_eq!(record, TokenRecord { amount: 1, ..start });
}

#[test]
fn built_token_account_is_owned_by_the_token_program() {
    let record = sample_record();
    let account = build_token_account(&record, 2_039_280).unwrap();
    assert_eq!(
        account,
        AccountRecord {
            lamports: 2_039_280,
            data: pack_record(&record).unwrap(),
            owner: token_program_id(),
            executable: false,
            rent_epoch: 0,
        }
    );
    assert_eq!(account.data.len(), 165);
}
