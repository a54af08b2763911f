use token_lock::address::Address;
use token_lock::error::LockTokenError;
use token_lock::state::{
    pack_schedules_into_slice, unpack_schedules, LockGlobalState, LockSchedule, LockScheduleHeader,
    TokenState,
};

#[test]
fn header_layout_round_trip() {
    let h = LockScheduleHeader {
        destination_address: Address { bytes: [1; 32] },
        mint_address: Address { bytes: [2; 32] },
        is_initialized: true,
    };
    let mut data = vec![0u8; 65];
    h.pack_into_slice(&mut data);
    assert_eq!(&data[0..32], &[1u8; 32][..]);
    assert_eq!(&data[32..64], &[2u8; 32][..]);
    assert_eq!(data[64], 1);
    let back = LockScheduleHeader::unpack(&data).unwrap();
    assert_eq!(back.destination_address, h.destination_address);
    assert_eq!(back.mint_address, h.mint_address);
    assert!(back.is_initialized);
}

#[test]
fn short_records_are_invalid_account_data() {
    assert_eq!(
        LockScheduleHeader::unpack_from_slice(&[0; 64]).err(),
        Some(LockTokenError::InvalidAccountData)
    );
    assert_eq!(LockSchedule::unpack_from_slice(&[0; 15]).err(), Some(LockTokenError::InvalidAccountData));
    assert_eq!(TokenState::unpack_from_slice(&[0; 33]).err(), Some(LockTokenError::InvalidAccountData));
    assert_eq!(
        LockGlobalState::unpack_from_slice(&[0; 105]).err(),
        Some(LockTokenError::InvalidAccountData)
    );
}

#[test]
fn uninitialized_records_are_refused() {
    assert_eq!(LockScheduleHeader::unpack(&[0; 65]).err(), Some(LockTokenError::UninitializedAccount));
    assert_eq!(TokenState::unpack(&[0; 34]).err(), Some(LockTokenError::UninitializedAccount));
    assert_eq!(LockGlobalState::unpack(&[0; 106]).err(), Some(LockTokenError::UninitializedAccount));
    assert_eq!(LockSchedule::unpack(&[1; 8].iter().chain([0u8; 8].iter()).copied().collect::<Vec<u8>>()).err(), Some(LockTokenError::UninitializedAccount));
}

#[test]
fn global_state_layout() {
    let g = LockGlobalState {
        price_estimator: Address { bytes: [1; 32] },
        usd_token_address: Address { bytes: [2; 32] },
        fees_in_usd: 0x0a0b,
        company_wallet: Address { bytes: [3; 32] },
        is_paused: true,
        is_initialized: true,
    };
    let mut data = vec![0u8; 106];
    g.pack_into_slice(&mut data);
    assert_eq!(&data[64..72], &[0x0b, 0x0a, 0, 0, 0, 0, 0, 0][..]);
    assert_eq!(&data[72..104], &[3u8; 32][..]);
    assert_eq!(data[104], 1);
    assert_eq!(data[105], 1);
    let back = LockGlobalState::unpack(&data).unwrap();
    assert_eq!(back.fees_in_usd, 0x0a0b);
    assert!(back.is_paused);
    assert_eq!(LockGlobalState::unpack(&[data.clone(), vec![0]].concat()).err(), Some(LockTokenError::InvalidAccountData));
}

#[test]
fn schedules_pack_and_unpack() {
    let entries = vec![
        LockSchedule { release_time: 1, amount: 2 },
        LockSchedule { release_time: 3, amount: 4 },
    ];
    let mut data = vec![9u8; 40];
    pack_schedules_into_slice(entries.clone(), &mut data);
    assert_eq!(&data[32..40], &[9u8; 8][..]);
    let back = unpack_schedules(&data).unwrap();
    assert_eq!(back, entries);
}

#[test]
fn onboarding_fee_follows_the_flag() {
    let mut t = TokenState { mint_address: Address { bytes: [0; 32] }, is_free: false, is_initialized: true };
    assert_eq!(t.estimate_fees_in_sol(), Ok(0));
    t.is_free = true;
    assert_eq!(t.estimate_fees_in_sol(), Ok(100));
}

#[test]
fn entry_is_initialized_while_it_holds_tokens() {
    assert!(LockSchedule { release_time: 0, amount: 1 }.is_initialized());
    assert!(!LockSchedule { release_time: 5, amount: 0 }.is_initialized());
}
