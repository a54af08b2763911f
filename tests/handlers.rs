use solana_program::program_option::COption;
use solana_program::program_pack::Pack;
use solana_program::pubkey::Pubkey;
use token_lock::address::Address;
use token_lock::error::LockTokenError;
use token_lock::instruction::{LockTokenInstruction, Schedule};
use token_lock::processor::{AccountSeed, Authority, HostCall, LedgerAccount, Outcome, Processor};

fn derived(seed: &[u8], program: &Address) -> Option<Address> {
    Pubkey::create_program_address(&[seed], &Pubkey::new_from_array(program.bytes))
        .ok()
        .map(|k| Address { bytes: k.to_bytes() })
}

/// A program identity whose global state address exists.
fn program() -> Address {
    for b in 1u8..=255 {
        let p = Address { bytes: [b; 32] };
        if derived(b"Token address", &p).is_some() {
            return p;
        }
    }
    panic!("no program identity");
}

/// A seed that derives an address under `program`, starting the search at `start`.
fn seed(program: &Address, start: u8) -> ([u8; 32], Address) {
    for b in start..=255 {
        let s = [b; 32];
        if let Some(a) = derived(&s, program) {
            return (s, a);
        }
    }
    panic!("no seed");
}

fn token_account(mint: Address, owner: Address, amount: u64) -> Vec<u8> {
    let acct = spl_token::state::Account {
        mint: Pubkey::new_from_array(mint.bytes),
        owner: Pubkey::new_from_array(owner.bytes),
        amount,
        delegate: COption::None,
        state: spl_token::state::AccountState::Initialized,
        is_native: COption::None,
        delegated_amount: 0,
        close_authority: COption::None,
    };
    let mut data = vec![0u8; spl_token::state::Account::LEN];
    spl_token::state::Account::pack(acct, &mut data).unwrap();
    data
}

fn account(key: Address, owner: Address, is_signer: bool, data: Vec<u8>) -> LedgerAccount {
    LedgerAccount { key, owner, is_signer, data }
}

fn addr(b: u8) -> Address {
    Address { bytes: [b; 32] }
}

fn token_program() -> Address {
    Address { bytes: spl_token::id().to_bytes() }
}

fn global_state(program: &Address, paused: bool) -> LedgerAccount {
    let key = derived(b"Token address", program).unwrap();
    let mut data = vec![0u8; 106];
    data[104] = if paused { 1 } else { 0 };
    data[105] = 1;
    account(key, *program, false, data)
}

struct Fixture {
    program: Address,
    seeds: [u8; 32],
    locking: Address,
    mint: Address,
    fee_record: Address,
    destination: Address,
    source_owner: Address,
}

fn fixture() -> Fixture {
    let program = program();
    let (seeds, locking) = seed(&program, 1);
    let mut mint_byte = 40u8;
    let (mint, fee_record) = loop {
        let m = addr(mint_byte);
        if let Some(k) = derived(&m.bytes, &program) {
            break (m, k);
        }
        mint_byte += 1;
    };
    Fixture { program, seeds, locking, mint, fee_record, destination: addr(200), source_owner: addr(201) }
}

fn create_accounts(f: &Fixture, locking_data: Vec<u8>, source_amount: u64) -> Vec<LedgerAccount> {
    vec![
        account(token_program(), addr(0), false, vec![]),
        global_state(&f.program, false),
        account(f.locking, f.program, false, locking_data),
        account(addr(100), addr(0), false, token_account(f.mint, f.locking, 0)),
        account(f.source_owner, addr(0), true, vec![]),
        account(addr(101), addr(0), false, token_account(f.mint, f.source_owner, source_amount)),
        account(f.fee_record, f.program, false, vec![0u8; 34]),
        account(addr(102), addr(0), false, vec![]),
    ]
}

fn unlock_accounts(f: &Fixture, locking_data: Vec<u8>) -> Vec<LedgerAccount> {
    vec![
        account(token_program(), addr(0), false, vec![]),
        account(addr(103), addr(0), false, vec![]),
        global_state(&f.program, false),
        account(f.locking, f.program, false, locking_data),
        account(addr(100), addr(0), false, token_account(f.mint, f.locking, 150)),
        account(f.destination, addr(0), false, token_account(f.mint, addr(202), 0)),
    ]
}

fn entries(t1: u64, t2: u64) -> Vec<Schedule> {
    vec![Schedule { release_time: t1, amount: 100 }, Schedule { release_time: t2, amount: 50 }]
}

fn create(f: &Fixture, accounts: &[LedgerAccount], schedules: Vec<Schedule>) -> Result<Outcome, LockTokenError> {
    Processor::process_create(&f.program, accounts, f.seeds, &f.mint, &f.destination, schedules)
}

fn created_data(f: &Fixture) -> Vec<u8> {
    let accounts = create_accounts(f, vec![0u8; 65 + 32], 1000);
    let out = create(f, &accounts, entries(1000, 2000)).unwrap();
    out.writes[0].data.clone()
}

fn amount_at(data: &[u8], index: usize) -> u64 {
    let at = 65 + 16 * index + 8;
    u64::from_le_bytes(data[at..at + 8].try_into().unwrap())
}

fn release_at(data: &[u8], index: usize) -> u64 {
    let at = 65 + 16 * index;
    u64::from_le_bytes(data[at..at + 8].try_into().unwrap())
}

#[test]
fn end_to_end_init_create_unlock() {
    let f = fixture();
    let init_accounts = vec![
        account(addr(0), addr(0), false, vec![]),
        global_state(&f.program, false),
        account(addr(104), addr(0), false, vec![]),
        account(addr(105), addr(0), true, vec![]),
        account(f.locking, addr(0), false, vec![]),
    ];
    let out = Processor::process_init(&f.program, &init_accounts, f.seeds, 2).unwrap();
    assert!(out.writes.is_empty());
    assert_eq!(
        out.calls,
        vec![HostCall::CreateAccount {
            system_program: 0,
            payer: 3,
            new_account: 4,
            space: 97,
            seed: AccountSeed::Locking { seeds: f.seeds },
        }]
    );

    let accounts = create_accounts(&f, vec![0u8; 97], 1000);
    let out = create(&f, &accounts, entries(1000, 2000)).unwrap();
    assert_eq!(out.writes.len(), 1);
    assert_eq!(out.writes[0].index, 2);
    let data = out.writes[0].data.clone();
    assert_eq!(&data[0..32], &f.destination.bytes[..]);
    assert_eq!(&data[32..64], &f.mint.bytes[..]);
    assert_eq!(data[64], 1);
    assert_eq!(amount_at(&data, 0), 100);
    assert_eq!(amount_at(&data, 1), 50);
    assert_eq!(
        out.calls,
        vec![
            HostCall::TransferLamports { from: 4, to: 7, lamports: 0 },
            HostCall::TransferTokens {
                token_program: 0,
                source: 5,
                destination: 3,
                authority: 4,
                amount: 150,
                signed_by: Authority::Signature,
            },
        ]
    );

    let out = Processor::process_unlock(&f.program, &unlock_accounts(&f, data), f.seeds, Ok(1500)).unwrap();
    assert_eq!(
        out.calls,
        vec![HostCall::TransferTokens {
            token_program: 0,
            source: 4,
            destination: 5,
            authority: 3,
            amount: 100,
            signed_by: Authority::Derivation { seeds: f.seeds },
        }]
    );
    let after = &out.writes[0].data;
    assert_eq!(out.writes[0].index, 3);
    assert_eq!(amount_at(after, 0), 0);
    assert_eq!(amount_at(after, 1), 50);
    assert_eq!(release_at(after, 0), 1000);
}

#[test]
fn unlock_boundary_is_inclusive_and_second_unlock_is_refused() {
    let f = fixture();
    let data = created_data(&f);
    let out = Processor::process_unlock(&f.program, &unlock_accounts(&f, data.clone()), f.seeds, Ok(1000)).unwrap();
    match out.calls[0] {
        HostCall::TransferTokens { amount, .. } => assert_eq!(amount, 100),
        _ => panic!("expected a token transfer"),
    }
    let after = out.writes[0].data.clone();
    assert_eq!(
        Processor::process_unlock(&f.program, &unlock_accounts(&f, after), f.seeds, Ok(1000)).err(),
        Some(LockTokenError::InvalidArgument)
    );
    assert_eq!(
        Processor::process_unlock(&f.program, &unlock_accounts(&f, data), f.seeds, Ok(999)).err(),
        Some(LockTokenError::InvalidArgument)
    );
}

#[test]
fn unlock_after_every_release_time_releases_all() {
    let f = fixture();
    let data = created_data(&f);
    let out = Processor::process_unlock(&f.program, &unlock_accounts(&f, data), f.seeds, Ok(5000)).unwrap();
    match out.calls[0] {
        HostCall::TransferTokens { amount, .. } => assert_eq!(amount, 150),
        _ => panic!("expected a token transfer"),
    }
}

#[test]
fn unlock_refuses_another_token_program() {
    let f = fixture();
    let mut accounts = unlock_accounts(&f, created_data(&f));
    accounts[0].key = addr(9);
    assert_eq!(
        Processor::process_unlock(&f.program, &accounts, f.seeds, Ok(5000)).err(),
        Some(LockTokenError::InvalidArgument)
    );
}

#[test]
fn unlock_refuses_another_destination() {
    let f = fixture();
    let mut accounts = unlock_accounts(&f, created_data(&f));
    accounts[5].key = addr(77);
    assert_eq!(
        Processor::process_unlock(&f.program, &accounts, f.seeds, Ok(5000)).err(),
        Some(LockTokenError::InvalidArgument)
    );
}

#[test]
fn unlock_passes_on_a_clock_failure() {
    let f = fixture();
    let accounts = unlock_accounts(&f, created_data(&f));
    assert_eq!(
        Processor::process_unlock(&f.program, &accounts, f.seeds, Err(LockTokenError::InvalidArgument)).err(),
        Some(LockTokenError::InvalidArgument)
    );
}

#[test]
fn create_with_insufficient_funds_is_refused() {
    let f = fixture();
    let accounts = create_accounts(&f, vec![0u8; 97], 149);
    assert_eq!(create(&f, &accounts, entries(1, 2)).err(), Some(LockTokenError::InsufficientFunds));
    let accounts = create_accounts(&f, vec![0u8; 97], 150);
    assert!(create(&f, &accounts, entries(1, 2)).is_ok());
}

#[test]
fn create_overflowing_schedule_is_refused() {
    let f = fixture();
    let accounts = create_accounts(&f, vec![0u8; 97], u64::MAX);
    let schedules = vec![
        Schedule { release_time: 1, amount: u64::MAX },
        Schedule { release_time: 2, amount: 1 },
    ];
    assert_eq!(create(&f, &accounts, schedules).err(), Some(LockTokenError::InvalidInstructionData));
}

#[test]
fn create_charges_the_fee_of_a_flagged_mint() {
    let f = fixture();
    let mut accounts = create_accounts(&f, vec![0u8; 97], 1000);
    let mut record = f.mint.bytes.to_vec();
    record.push(1);
    record.push(1);
    accounts[6].data = record;
    let out = create(&f, &accounts, entries(1, 2)).unwrap();
    assert_eq!(out.calls[0], HostCall::TransferLamports { from: 4, to: 7, lamports: 100 });
}

#[test]
fn create_on_an_initialized_account_is_refused() {
    let f = fixture();
    let data = created_data(&f);
    let accounts = create_accounts(&f, data, 1000);
    assert_eq!(create(&f, &accounts, entries(1, 2)).err(), Some(LockTokenError::InvalidArgument));
}

#[test]
fn create_with_a_wrong_size_is_refused() {
    let f = fixture();
    let accounts = create_accounts(&f, vec![0u8; 96], 1000);
    assert_eq!(create(&f, &accounts, entries(1, 2)).err(), Some(LockTokenError::InvalidAccountData));
}

#[test]
fn create_refuses_a_locking_token_account_with_a_delegate() {
    let f = fixture();
    let mut accounts = create_accounts(&f, vec![0u8; 97], 1000);
    accounts[3].data[72] = 1;
    assert_eq!(create(&f, &accounts, entries(1, 2)).err(), Some(LockTokenError::InvalidAccountData));
}

#[test]
fn create_refuses_a_forged_locking_account() {
    let f = fixture();
    let mut accounts = create_accounts(&f, vec![0u8; 97], 1000);
    accounts[2].key = addr(66);
    assert_eq!(create(&f, &accounts, entries(1, 2)).err(), Some(LockTokenError::InvalidArgument));
}

#[test]
fn calls_are_refused_while_paused() {
    let f = fixture();
    let mut accounts = create_accounts(&f, vec![0u8; 97], 1000);
    accounts[1] = global_state(&f.program, true);
    assert_eq!(create(&f, &accounts, entries(1, 2)).err(), Some(LockTokenError::InvalidArgument));
}

#[test]
fn too_few_accounts_are_refused() {
    let f = fixture();
    let accounts = create_accounts(&f, vec![0u8; 97], 1000);
    assert_eq!(create(&f, &accounts[..7], entries(1, 2)).err(), Some(LockTokenError::NotEnoughAccountKeys));
}

fn owner_accounts(f: &Fixture, data: Vec<u8>, signer: bool, owner: Address) -> Vec<LedgerAccount> {
    vec![
        global_state(&f.program, false),
        account(f.locking, f.program, false, data),
        account(f.destination, addr(0), false, token_account(f.mint, addr(202), 0)),
        account(owner, addr(0), signer, vec![]),
        account(addr(203), addr(0), false, vec![]),
    ]
}

#[test]
fn transfer_locks_retargets_the_destination() {
    let f = fixture();
    let data = created_data(&f);
    let accounts = owner_accounts(&f, data.clone(), true, addr(202));
    let out = Processor::process_transfer_locks(&f.program, &accounts, f.seeds).unwrap();
    let after = &out.writes[0].data;
    assert_eq!(&after[0..32], &addr(203).bytes[..]);
    assert_eq!(&after[32..], &data[32..]);
    assert!(out.calls.is_empty());
}

#[test]
fn transfer_locks_needs_the_destination_owner_signature() {
    let f = fixture();
    let data = created_data(&f);
    let accounts = owner_accounts(&f, data.clone(), false, addr(202));
    assert_eq!(
        Processor::process_transfer_locks(&f.program, &accounts, f.seeds).err(),
        Some(LockTokenError::InvalidArgument)
    );
    let accounts = owner_accounts(&f, data, true, addr(204));
    assert_eq!(
        Processor::process_transfer_locks(&f.program, &accounts, f.seeds).err(),
        Some(LockTokenError::InvalidArgument)
    );
}

#[test]
fn extend_lock_duration_only_moves_later() {
    let f = fixture();
    let data = created_data(&f);
    let accounts = owner_accounts(&f, data.clone(), true, addr(202));
    assert_eq!(
        Processor::process_extend_lock_duration(&f.program, &accounts[..4], f.seeds, 1, 1999).err(),
        Some(LockTokenError::InvalidArgument)
    );
    let out = Processor::process_extend_lock_duration(&f.program, &accounts[..4], f.seeds, 1, 2000).unwrap();
    assert_eq!(out.writes[0].data, data);
    let out = Processor::process_extend_lock_duration(&f.program, &accounts[..4], f.seeds, 1, 3000).unwrap();
    let after = &out.writes[0].data;
    assert_eq!(release_at(after, 1), 3000);
    assert_eq!(amount_at(after, 1), 50);
    assert_eq!(release_at(after, 0), 1000);
    assert_eq!(
        Processor::process_extend_lock_duration(&f.program, &accounts[..4], f.seeds, 2, 3000).err(),
        Some(LockTokenError::InvalidAccountData)
    );
}

#[test]
fn administrator_calls_need_a_parsable_credential_mint() {
    let f = fixture();
    let state = global_state(&f.program, false);
    let accounts = vec![
        account(addr(210), addr(0), true, vec![]),
        account(addr(211), addr(0), false, token_account(addr(212), addr(210), 1)),
        state,
    ];
    assert_eq!(
        Processor::process_pause_contract(&f.program, &accounts, true).err(),
        Some(LockTokenError::InvalidArgument)
    );
    assert_eq!(
        Processor::process_set_fees_in_usd(&f.program, &accounts, 5).err(),
        Some(LockTokenError::InvalidArgument)
    );
}

#[test]
fn administrator_calls_need_a_signature() {
    let f = fixture();
    let accounts = vec![
        account(addr(210), addr(0), false, vec![]),
        account(addr(211), addr(0), false, token_account(addr(212), addr(210), 1)),
        global_state(&f.program, false),
    ];
    assert_eq!(
        Processor::process_set_company_wallet(&f.program, &accounts, &addr(5)).err(),
        Some(LockTokenError::InvalidArgument)
    );
}

#[test]
fn transfer_ownership_moves_one_credential() {
    let accounts = vec![
        account(token_program(), addr(0), false, vec![]),
        account(addr(220), addr(0), true, vec![]),
        account(addr(221), addr(0), false, token_account(addr(9), addr(220), 1)),
        account(addr(222), addr(0), false, vec![]),
        account(addr(223), addr(0), false, token_account(addr(9), addr(222), 0)),
    ];
    let out = Processor::process_transfer_ownership(&accounts).unwrap();
    assert_eq!(
        out.calls,
        vec![HostCall::TransferTokens {
            token_program: 0,
            source: 2,
            destination: 4,
            authority: 1,
            amount: 1,
            signed_by: Authority::Signature,
        }]
    );
    let mut empty = accounts.clone();
    empty[2].data = token_account(addr(9), addr(220), 0);
    assert_eq!(Processor::process_transfer_ownership(&empty).err(), Some(LockTokenError::InvalidArgument));
    let mut garbage = accounts;
    garbage[4].data = vec![1, 2, 3];
    assert_eq!(Processor::process_transfer_ownership(&garbage).err(), Some(LockTokenError::InvalidAccountData));
}

#[test]
fn uninitialized_token_account_is_refused() {
    let mut data = token_account(addr(9), addr(220), 1);
    data[108] = 0;
    let accounts = vec![
        account(token_program(), addr(0), false, vec![]),
        account(addr(220), addr(0), true, vec![]),
        account(addr(221), addr(0), false, data),
        account(addr(222), addr(0), false, vec![]),
        account(addr(223), addr(0), false, token_account(addr(9), addr(222), 0)),
    ];
    assert_eq!(Processor::process_transfer_ownership(&accounts).err(), Some(LockTokenError::UninitializedAccount));
}

#[test]
fn process_instruction_dispatches_and_rejects_bad_envelopes() {
    let f = fixture();
    assert_eq!(
        Processor::process_instruction(&f.program, &[], &[], Ok(0)).err(),
        Some(LockTokenError::InvalidInstruction)
    );
    assert_eq!(
        Processor::process_instruction(&f.program, &[], &[42], Ok(0)).err(),
        Some(LockTokenError::InvalidInstruction)
    );
    let data = created_data(&f);
    let ins = LockTokenInstruction::Unlock { seeds: f.seeds }.pack();
    let out = Processor::process_instruction(&f.program, &unlock_accounts(&f, data), &ins, Ok(1000)).unwrap();
    match out.calls[0] {
        HostCall::TransferTokens { amount, .. } => assert_eq!(amount, 100),
        _ => panic!("expected a token transfer"),
    }
}

#[test]
fn released_entry_can_still_be_extended() {
    let f = fixture();
    let data = created_data(&f);
    let out = Processor::process_unlock(&f.program, &unlock_accounts(&f, data), f.seeds, Ok(1000)).unwrap();
    let released = out.writes[0].data.clone();
    assert_eq!(amount_at(&released, 0), 0);
    let accounts = owner_accounts(&f, released, true, addr(202));
    assert_eq!(
        Processor::process_extend_lock_duration(&f.program, &accounts[..4], f.seeds, 0, 999).err(),
        Some(LockTokenError::InvalidArgument)
    );
    let out = Processor::process_extend_lock_duration(&f.program, &accounts[..4], f.seeds, 0, 1000).unwrap();
    assert_eq!(release_at(&out.writes[0].data, 0), 1000);
    let out = Processor::process_extend_lock_duration(&f.program, &accounts[..4], f.seeds, 0, 4000).unwrap();
    assert_eq!(release_at(&out.writes[0].data, 0), 4000);
    assert_eq!(amount_at(&out.writes[0].data, 0), 0);
}

#[test]
fn wrong_locking_address_is_refused_before_its_contents() {
    let f = fixture();
    let mut accounts = owner_accounts(&f, vec![0u8; 97], true, addr(202));
    accounts[1].key = addr(66);
    assert_eq!(
        Processor::process_transfer_locks(&f.program, &accounts, f.seeds).err(),
        Some(LockTokenError::InvalidArgument)
    );
    assert_eq!(
        Processor::process_extend_lock_duration(&f.program, &accounts[..4], f.seeds, 0, 5).err(),
        Some(LockTokenError::InvalidArgument)
    );
}

#[test]
fn set_fee_params_checks_the_owner_of_an_existing_state_only() {
    let f = fixture();
    let state_key = derived(b"Token address", &f.program).unwrap();
    let mut accounts = vec![
        account(addr(0), addr(0), false, vec![]),
        account(addr(1), addr(0), false, vec![]),
        account(addr(210), addr(0), true, vec![]),
        account(addr(211), addr(0), false, vec![1, 2, 3]),
        account(state_key, addr(0), false, vec![]),
    ];
    // A state still to be created has no owner to check: the credential account is read next.
    assert_eq!(
        Processor::process_set_fee_params(&f.program, &accounts, &addr(1), &addr(2), 3, &addr(4)).err(),
        Some(LockTokenError::InvalidAccountData)
    );
    // An existing state held by another program is refused on its owner.
    accounts[4] = global_state(&f.program, false);
    accounts[4].owner = addr(0);
    assert_eq!(
        Processor::process_set_fee_params(&f.program, &accounts, &addr(1), &addr(2), 3, &addr(4)).err(),
        Some(LockTokenError::InvalidArgument)
    );
}
