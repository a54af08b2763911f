use token_lock::address::Address;
use token_lock::error::LockTokenError;
use token_lock::instruction::{LockTokenInstruction, Schedule};

fn addr(b: u8) -> Address {
    Address { bytes: [b; 32] }
}

fn round_trip(ins: LockTokenInstruction) {
    let bytes = ins.pack();
    assert_eq!(LockTokenInstruction::unpack(&bytes), Ok(ins));
}

#[test]
fn round_trip_init() {
    round_trip(LockTokenInstruction::Init { seeds: [7; 32], number_of_schedules: 2 });
}

#[test]
fn round_trip_create() {
    round_trip(LockTokenInstruction::Create {
        seeds: [1; 32],
        mint_address: addr(2),
        destination_token_address: addr(3),
        schedules: vec![
            Schedule { release_time: 10, amount: 100 },
            Schedule { release_time: 20, amount: 50 },
        ],
    });
}

#[test]
fn round_trip_create_without_entries() {
    round_trip(LockTokenInstruction::Create {
        seeds: [1; 32],
        mint_address: addr(2),
        destination_token_address: addr(3),
        schedules: vec![],
    });
}

#[test]
fn round_trip_remaining_variants() {
    round_trip(LockTokenInstruction::Unlock { seeds: [4; 32] });
    round_trip(LockTokenInstruction::TransferLocks { seeds: [5; 32] });
    round_trip(LockTokenInstruction::ExtendLockDuration {
        seeds: [6; 32],
        index: 3,
        release_time: u64::MAX,
    });
    round_trip(LockTokenInstruction::PauseContract { is_pause: true });
    round_trip(LockTokenInstruction::PauseContract { is_pause: false });
    round_trip(LockTokenInstruction::SetFeeParams {
        price_estimator: addr(8),
        usd_token_address: addr(9),
        fees_in_usd: 12345,
        company_wallet: addr(10),
    });
    round_trip(LockTokenInstruction::SetFeesInUSD { fees_in_usd: 77 });
    round_trip(LockTokenInstruction::SetCompanyWallet { company_wallet: addr(11) });
    round_trip(LockTokenInstruction::SetFreeToken { mint_address: addr(12), is_free: true });
    round_trip(LockTokenInstruction::TransferOwnership {});
}

#[test]
fn pack_init_layout() {
    let bytes = LockTokenInstruction::Init { seeds: [7; 32], number_of_schedules: 0x0102 }.pack();
    assert_eq!(bytes.len(), 37);
    assert_eq!(bytes[0], 0);
    assert_eq!(&bytes[1..33], &[7u8; 32][..]);
    assert_eq!(&bytes[33..37], &[2u8, 1, 0, 0][..]);
}

#[test]
fn pack_create_layout() {
    let bytes = LockTokenInstruction::Create {
        seeds: [1; 32],
        mint_address: addr(2),
        destination_token_address: addr(3),
        schedules: vec![Schedule { release_time: 1, amount: 256 }],
    }
    .pack();
    assert_eq!(bytes.len(), 1 + 96 + 16);
    assert_eq!(bytes[0], 1);
    assert_eq!(&bytes[97..105], &[1u8, 0, 0, 0, 0, 0, 0, 0][..]);
    assert_eq!(&bytes[105..113], &[0u8, 1, 0, 0, 0, 0, 0, 0][..]);
}

#[test]
fn empty_buffer_is_invalid() {
    assert_eq!(LockTokenInstruction::unpack(&[]), Err(LockTokenError::InvalidInstruction));
}

#[test]
fn unknown_tags_are_invalid() {
    for tag in 11u8..=255 {
        assert_eq!(
            LockTokenInstruction::unpack(&[tag, 0, 0, 0]),
            Err(LockTokenError::InvalidInstruction)
        );
    }
}

#[test]
fn short_payloads_are_invalid() {
    assert_eq!(LockTokenInstruction::unpack(&[0; 36]), Err(LockTokenError::InvalidInstruction));
    assert_eq!(LockTokenInstruction::unpack(&[2; 10]), Err(LockTokenError::InvalidInstruction));
    let mut ext = vec![4u8];
    ext.extend_from_slice(&[0; 43]);
    assert_eq!(LockTokenInstruction::unpack(&ext), Err(LockTokenError::InvalidInstruction));
    assert_eq!(LockTokenInstruction::unpack(&[5]), Err(LockTokenError::InvalidInstruction));
    assert_eq!(LockTokenInstruction::unpack(&[9; 33]), Err(LockTokenError::InvalidInstruction));
}

#[test]
fn create_remainder_is_truncated() {
    let mut bytes = LockTokenInstruction::Create {
        seeds: [1; 32],
        mint_address: addr(2),
        destination_token_address: addr(3),
        schedules: vec![Schedule { release_time: 5, amount: 6 }],
    }
    .pack();
    bytes.extend_from_slice(&[9; 15]);
    match LockTokenInstruction::unpack(&bytes) {
        Ok(LockTokenInstruction::Create { schedules, .. }) => {
            assert_eq!(schedules, vec![Schedule { release_time: 5, amount: 6 }]);
        }
        other => panic!("unexpected {:?}", other),
    }
}

#[test]
fn flag_byte_other_than_one_is_false() {
    assert_eq!(
        LockTokenInstruction::unpack(&[5, 2]),
        Ok(LockTokenInstruction::PauseContract { is_pause: false })
    );
    assert_eq!(
        LockTokenInstruction::unpack(&[5, 1]),
        Ok(LockTokenInstruction::PauseContract { is_pause: true })
    );
}

#[test]
fn transfer_ownership_is_tag_only() {
    assert_eq!(LockTokenInstruction::TransferOwnership {}.pack(), vec![10u8]);
    assert_eq!(
        LockTokenInstruction::unpack(&[10, 99]),
        Ok(LockTokenInstruction::TransferOwnership {})
    );
}

#[test]
fn builders_encode_their_operation() {
    let ins = token_lock::instruction::extend_lock_duration(
        &addr(1),
        &addr(2),
        &addr(3),
        &addr(4),
        [5; 32],
        1,
        99,
    )
    .unwrap();
    assert_eq!(ins.program_id, addr(1));
    assert_eq!(ins.accounts.len(), 3);
    assert!(ins.accounts[2].is_signer);
    assert_eq!(
        LockTokenInstruction::unpack(&ins.data),
        Ok(LockTokenInstruction::ExtendLockDuration { seeds: [5; 32], index: 1, release_time: 99 })
    );
    let ins = token_lock::instruction::init(&addr(1), &addr(2), &addr(3), &addr(4), &addr(5), [6; 32], 4)
        .unwrap();
    assert_eq!(ins.program_id, addr(3));
    assert_eq!(ins.accounts.len(), 4);
    assert_eq!(
        LockTokenInstruction::unpack(&ins.data),
        Ok(LockTokenInstruction::Init { seeds: [6; 32], number_of_schedules: 4 })
    );
}
