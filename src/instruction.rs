use crate::address::Address;
use crate::bytes::{flag_byte, flag_of, push_all, read_array32, read_u32, read_u64, u32_at, u64_at};
use crate::error::LockTokenError;
use crate::state::{
    lemma_lock_schedules_decode_encode, lock_schedules_bytes, lock_schedules_of, schedules_to_bytes,
    unpack_schedules, LockSchedule,
};
use vstd::bytes::*;
use vstd::prelude::*;
use vstd::slice::slice_subrange;

verus! {

/// One entry of a release schedule as carried by a create call.
#[derive(Clone, Copy, Debug, PartialEq, Eq, Structural)]
pub struct Schedule {
    pub release_time: u64,
    pub amount: u64,
}

/// Size in bytes of one encoded schedule entry.
pub const SCHEDULE_SIZE: usize = 16;

/// The operations of the lock program, one variant per tag byte.
#[derive(Clone, Debug, PartialEq)]
pub enum LockTokenInstruction {
    /// Allocates the locking account of `seeds`, sized for `number_of_schedules` entries.
    Init { seeds: [u8; 32], number_of_schedules: u32 },
    /// Writes the header and schedule of an allocated locking account and funds it.
    Create {
        seeds: [u8; 32],
        mint_address: Address,
        destination_token_address: Address,
        schedules: Vec<Schedule>,
    },
    /// Releases every matured entry to the destination.
    Unlock { seeds: [u8; 32] },
    /// Retargets the destination of a locking account.
    TransferLocks { seeds: [u8; 32] },
    /// Moves the release time of one entry later.
    ExtendLockDuration { seeds: [u8; 32], index: u32, release_time: u64 },
    /// Sets or clears the paused flag of the global state.
    PauseContract { is_pause: bool },
    /// Sets the fee parameters, creating the global state when it is missing.
    SetFeeParams {
        price_estimator: Address,
        usd_token_address: Address,
        fees_in_usd: u64,
        company_wallet: Address,
    },
    /// Sets the fee in USD of the global state.
    SetFeesInUSD { fees_in_usd: u64 },
    /// Sets the fee-receiving wallet of the global state.
    SetCompanyWallet { company_wallet: Address },
    /// Sets the fee flag of a token mint.
    SetFreeToken { mint_address: Address, is_free: bool },
    /// Hands one unit of the credential token to a new administrator.
    TransferOwnership {},
}

/// The mathematical value of an instruction: addresses and seeds as byte sequences.
pub enum InstructionView {
    Init { seeds: Seq<u8>, number_of_schedules: u32 },
    Create { seeds: Seq<u8>, mint_address: Seq<u8>, destination_token_address: Seq<u8>, schedules: Seq<Schedule> },
    Unlock { seeds: Seq<u8> },
    TransferLocks { seeds: Seq<u8> },
    ExtendLockDuration { seeds: Seq<u8>, index: u32, release_time: u64 },
    PauseContract { is_pause: bool },
    SetFeeParams { price_estimator: Seq<u8>, usd_token_address: Seq<u8>, fees_in_usd: u64, company_wallet: Seq<u8> },
    SetFeesInUSD { fees_in_usd: u64 },
    SetCompanyWallet { company_wallet: Seq<u8> },
    SetFreeToken { mint_address: Seq<u8>, is_free: bool },
    TransferOwnership,
}

impl LockTokenInstruction {
    pub open spec fn view(&self) -> InstructionView {
        match self {
            LockTokenInstruction::Init { seeds, number_of_schedules } => InstructionView::Init {
                seeds: seeds@,
                number_of_schedules: *number_of_schedules,
            },
            LockTokenInstruction::Create {
                seeds,
                mint_address,
                destination_token_address,
                schedules,
            } => InstructionView::Create {
                seeds: seeds@,
                mint_address: mint_address@,
                destination_token_address: destination_token_address@,
                schedules: schedules@,
            },
            LockTokenInstruction::Unlock { seeds } => InstructionView::Unlock { seeds: seeds@ },
            LockTokenInstruction::TransferLocks { seeds } => InstructionView::TransferLocks {
                seeds: seeds@,
            },
            LockTokenInstruction::ExtendLockDuration { seeds, index, release_time } =>
                InstructionView::ExtendLockDuration {
                seeds: seeds@,
                index: *index,
                release_time: *release_time,
            },
            LockTokenInstruction::PauseContract { is_pause } => InstructionView::PauseContract {
                is_pause: *is_pause,
            },
            LockTokenInstruction::SetFeeParams {
                price_estimator,
                usd_token_address,
                fees_in_usd,
                company_wallet,
            } => InstructionView::SetFeeParams {
                price_estimator: price_estimator@,
                usd_token_address: usd_token_address@,
                fees_in_usd: *fees_in_usd,
                company_wallet: company_wallet@,
            },
            LockTokenInstruction::SetFeesInUSD { fees_in_usd } => InstructionView::SetFeesInUSD {
                fees_in_usd: *fees_in_usd,
            },
            LockTokenInstruction::SetCompanyWallet { company_wallet } =>
                InstructionView::SetCompanyWallet { company_wallet: company_wallet@ },
            LockTokenInstruction::SetFreeToken { mint_address, is_free } =>
                InstructionView::SetFreeToken { mint_address: mint_address@, is_free: *is_free },
            LockTokenInstruction::TransferOwnership {  } => InstructionView::TransferOwnership,
        }
    }
}

/// The stored entries that a create call's schedule becomes.
pub open spec fn as_lock_schedules(s: Seq<Schedule>) -> Seq<LockSchedule> {
    s.map_values(|e: Schedule| LockSchedule { release_time: e.release_time, amount: e.amount })
}

/// The schedule that stored entries make up.
pub open spec fn as_schedules(s: Seq<LockSchedule>) -> Seq<Schedule> {
    s.map_values(|e: LockSchedule| Schedule { release_time: e.release_time, amount: e.amount })
}

/// The entries of `s`, encoded one after the other in the stored entry layout.
pub open spec fn schedules_bytes(s: Seq<Schedule>) -> Seq<u8> {
    lock_schedules_bytes(as_lock_schedules(s))
}

/// The whole entries encoded in `b` from offset `at` on; a trailing remainder is dropped.
pub open spec fn schedules_from(b: Seq<u8>, at: int) -> Seq<Schedule> {
    as_schedules(lock_schedules_of(b.subrange(at, b.len() as int)))
}

/// The canonical encoding of an instruction: its tag byte, then its payload.
pub open spec fn spec_encode(v: InstructionView) -> Seq<u8> {
    match v {
        InstructionView::Init { seeds, number_of_schedules } => seq![0u8] + seeds
            + spec_u32_to_le_bytes(number_of_schedules),
        InstructionView::Create { seeds, mint_address, destination_token_address, schedules } =>
            seq![1u8] + seeds + mint_address + destination_token_address + schedules_bytes(
            schedules,
        ),
        InstructionView::Unlock { seeds } => seq![2u8] + seeds,
        InstructionView::TransferLocks { seeds } => seq![3u8] + seeds,
        InstructionView::ExtendLockDuration { seeds, index, release_time } => seq![4u8] + seeds
            + spec_u32_to_le_bytes(index) + spec_u64_to_le_bytes(release_time),
        InstructionView::PauseContract { is_pause } => seq![5u8, flag_byte(is_pause)],
        InstructionView::SetFeeParams {
            price_estimator,
            usd_token_address,
            fees_in_usd,
            company_wallet,
        } => seq![6u8] + price_estimator + usd_token_address + spec_u64_to_le_bytes(fees_in_usd)
            + company_wallet,
        InstructionView::SetFeesInUSD { fees_in_usd } => seq![7u8] + spec_u64_to_le_bytes(
            fees_in_usd,
        ),
        InstructionView::SetCompanyWallet { company_wallet } => seq![8u8] + company_wallet,
        InstructionView::SetFreeToken { mint_address, is_free } => seq![9u8] + mint_address
            + seq![flag_byte(is_free)],
        InstructionView::TransferOwnership => seq![10u8],
    }
}

/// The payload length that each tag needs at least; `None` for an unknown tag.
pub open spec fn payload_len(tag: u8) -> Option<int> {
    if tag == 0 {
        Some(36)
    } else if tag == 1 {
        Some(96)
    } else if tag == 2 || tag == 3 {
        Some(32)
    } else if tag == 4 {
        Some(44)
    } else if tag == 5 {
        Some(1)
    } else if tag == 6 {
        Some(104)
    } else if tag == 7 {
        Some(8)
    } else if tag == 8 {
        Some(32)
    } else if tag == 9 {
        Some(33)
    } else if tag == 10 {
        Some(0)
    } else {
        None
    }
}

/// What a byte buffer decodes to, given that its tag is known and its payload `r` long enough.
pub open spec fn decode_payload(tag: u8, r: Seq<u8>) -> InstructionView {
    if tag == 0 {
        InstructionView::Init { seeds: r.subrange(0, 32), number_of_schedules: u32_at(r, 32) }
    } else if tag == 1 {
        InstructionView::Create {
            seeds: r.subrange(0, 32),
            mint_address: r.subrange(32, 64),
            destination_token_address: r.subrange(64, 96),
            schedules: schedules_from(r, 96),
        }
    } else if tag == 2 {
        InstructionView::Unlock { seeds: r.subrange(0, 32) }
    } else if tag == 3 {
        InstructionView::TransferLocks { seeds: r.subrange(0, 32) }
    } else if tag == 4 {
        InstructionView::ExtendLockDuration {
            seeds: r.subrange(0, 32),
            index: u32_at(r, 32),
            release_time: u64_at(r, 36),
        }
    } else if tag == 5 {
        InstructionView::PauseContract { is_pause: flag_of(r[0]) }
    } else if tag == 6 {
        InstructionView::SetFeeParams {
            price_estimator: r.subrange(0, 32),
            usd_token_address: r.subrange(32, 64),
            fees_in_usd: u64_at(r, 64),
            company_wallet: r.subrange(72, 104),
        }
    } else if tag == 7 {
        InstructionView::SetFeesInUSD { fees_in_usd: u64_at(r, 0) }
    } else if tag == 8 {
        InstructionView::SetCompanyWallet { company_wallet: r.subrange(0, 32) }
    } else if tag == 9 {
        InstructionView::SetFreeToken { mint_address: r.subrange(0, 32), is_free: flag_of(r[32]) }
    } else {
        InstructionView::TransferOwnership
    }
}

/// What a byte buffer decodes to: `None` when it is empty, its tag is unknown, or its
/// payload is shorter than the tag needs.
pub open spec fn spec_decode(b: Seq<u8>) -> Option<InstructionView> {
    if b.len() == 0 {
        None
    } else {
        let r = b.subrange(1, b.len() as int);
        match payload_len(b[0]) {
            Some(n) => if r.len() >= n {
                Some(decode_payload(b[0], r))
            } else {
                None
            },
            None => None,
        }
    }
}

/// Decoding the encoding of any instruction gives back that instruction.
pub proof fn lemma_codec_round_trip(x: LockTokenInstruction)
    ensures
        spec_decode(spec_encode(x@)) == Some(x@),
{
    lemma_auto_spec_u64_to_from_le_bytes();
    lemma_auto_spec_u32_to_from_le_bytes();
    let b = spec_encode(x@);
    let r = b.subrange(1, b.len() as int);
    match x {
        LockTokenInstruction::Init { seeds, number_of_schedules } => {
            assert(r =~= seeds@ + spec_u32_to_le_bytes(number_of_schedules));
            assert(r.subrange(0, 32) =~= seeds@);
            assert(r.subrange(32, 36) =~= spec_u32_to_le_bytes(number_of_schedules));
        },
        LockTokenInstruction::Create { seeds, mint_address, destination_token_address, schedules } => {
            let p = seeds@ + mint_address@ + destination_token_address@;
            let ls = as_lock_schedules(schedules@);
            lemma_lock_schedules_decode_encode(ls);
            assert(r =~= p + schedules_bytes(schedules@));
            assert(r.subrange(96, r.len() as int) =~= lock_schedules_bytes(ls));
            assert(as_schedules(ls) =~= schedules@);
            assert(r.subrange(0, 32) =~= seeds@);
            assert(r.subrange(32, 64) =~= mint_address@);
            assert(r.subrange(64, 96) =~= destination_token_address@);
        },
        LockTokenInstruction::Unlock { seeds } => {
            assert(r.subrange(0, 32) =~= seeds@);
        },
        LockTokenInstruction::TransferLocks { seeds } => {
            assert(r.subrange(0, 32) =~= seeds@);
        },
        LockTokenInstruction::ExtendLockDuration { seeds, index, release_time } => {
            assert(r.subrange(0, 32) =~= seeds@);
            assert(r.subrange(32, 36) =~= spec_u32_to_le_bytes(index));
            assert(r.subrange(36, 44) =~= spec_u64_to_le_bytes(release_time));
        },
        LockTokenInstruction::PauseContract { is_pause } => {},
        LockTokenInstruction::SetFeeParams {
            price_estimator,
            usd_token_address,
            fees_in_usd,
            company_wallet,
        } => {
            assert(r.subrange(0, 32) =~= price_estimator@);
            assert(r.subrange(32, 64) =~= usd_token_address@);
            assert(r.subrange(64, 72) =~= spec_u64_to_le_bytes(fees_in_usd));
            assert(r.subrange(72, 104) =~= company_wallet@);
        },
        LockTokenInstruction::SetFeesInUSD { fees_in_usd } => {
            assert(r.subrange(0, 8) =~= spec_u64_to_le_bytes(fees_in_usd));
        },
        LockTokenInstruction::SetCompanyWallet { company_wallet } => {
            assert(r.subrange(0, 32) =~= company_wallet@);
        },
        LockTokenInstruction::SetFreeToken { mint_address, is_free } => {
            assert(r.subrange(0, 32) =~= mint_address@);
        },
        LockTokenInstruction::TransferOwnership {  } => {},
    }
}

fn payload_len_of(tag: u8) -> (r: Option<usize>)
    ensures
        match r {
            Some(n) => payload_len(tag) == Some(n as int),
            None => payload_len(tag) is None,
        },
{
    if tag == 0 {
        Some(36)
    } else if tag == 1 {
        Some(96)
    } else if tag == 2 || tag == 3 {
        Some(32)
    } else if tag == 4 {
        Some(44)
    } else if tag == 5 {
        Some(1)
    } else if tag == 6 {
        Some(104)
    } else if tag == 7 {
        Some(8)
    } else if tag == 8 {
        Some(32)
    } else if tag == 9 {
        Some(33)
    } else if tag == 10 {
        Some(0)
    } else {
        None
    }
}

/// Reads the whole schedule entries of `b` from offset `at` on, dropping a trailing remainder.
fn unpack_entries(b: &[u8], at: usize) -> (r: Vec<Schedule>)
    requires
        at <= b@.len(),
    ensures
        r@ == schedules_from(b@, at as int),
{
    let stored = match unpack_schedules(slice_subrange(b, at, b.len())) {
        Ok(v) => v,
        Err(_) => Vec::new(),
    };
    let mut out: Vec<Schedule> = Vec::new();
    let mut i: usize = 0;
    while i < stored.len()
        invariant
            0 <= i <= stored@.len(),
            out@ =~= as_schedules(stored@.subrange(0, i as int)),
        decreases stored@.len() - i,
    {
        let e = stored[i];
        out.push(Schedule { release_time: e.release_time, amount: e.amount });
        i = i + 1;
    }
    assert(stored@.subrange(0, i as int) =~= stored@);
    out
}

/// Appends the encoding of each entry of `s` to `buf`.
pub(crate) fn pack_entries(s: &Vec<Schedule>, buf: &mut Vec<u8>)
    ensures
        final(buf)@ == old(buf)@ + schedules_bytes(s@),
{
    let mut stored: Vec<LockSchedule> = Vec::new();
    let mut i: usize = 0;
    while i < s.len()
        invariant
            0 <= i <= s@.len(),
            stored@ =~= as_lock_schedules(s@.subrange(0, i as int)),
        decreases s@.len() - i,
    {
        let e = s[i];
        stored.push(LockSchedule { release_time: e.release_time, amount: e.amount });
        i = i + 1;
    }
    assert(s@.subrange(0, i as int) =~= s@);
    push_all(buf, schedules_to_bytes(&stored).as_slice());
}

impl LockTokenInstruction {
    /// Decodes an instruction from its tag byte and payload. Trailing bytes after the
    /// fields of the tag are ignored, and so is a create payload's remainder of less than
    /// one whole schedule entry.
    pub fn unpack(input: &[u8]) -> (r: Result<LockTokenInstruction, LockTokenError>)
        ensures
            match r {
                Ok(i) => spec_decode(input@) == Some(i@),
                Err(e) => spec_decode(input@) is None && e == LockTokenError::InvalidInstruction,
            },
    {
        let n = input.len();
        if n == 0 {
            return Err(LockTokenError::InvalidInstruction);
        }
        let tag = input[0];
        let rest = slice_subrange(input, 1, n);
        let need = match payload_len_of(tag) {
            Some(k) => k,
            None => {
                return Err(LockTokenError::InvalidInstruction);
            },
        };
        if rest.len() < need {
            return Err(LockTokenError::InvalidInstruction);
        }
        let ghost r = rest@;
        let ins = if tag == 0 {
            LockTokenInstruction::Init {
                seeds: read_array32(rest, 0),
                number_of_schedules: read_u32(rest, 32),
            }
        } else if tag == 1 {
            LockTokenInstruction::Create {
                seeds: read_array32(rest, 0),
                mint_address: Address { bytes: read_array32(rest, 32) },
                destination_token_address: Address { bytes: read_array32(rest, 64) },
                schedules: unpack_entries(rest, 96),
            }
        } else if tag == 2 {
            LockTokenInstruction::Unlock { seeds: read_array32(rest, 0) }
        } else if tag == 3 {
            LockTokenInstruction::TransferLocks { seeds: read_array32(rest, 0) }
        } else if tag == 4 {
            LockTokenInstruction::ExtendLockDuration {
                seeds: read_array32(rest, 0),
                index: read_u32(rest, 32),
                release_time: read_u64(rest, 36),
            }
        } else if tag == 5 {
            LockTokenInstruction::PauseContract { is_pause: rest[0] == 1 }
        } else if tag == 6 {
            LockTokenInstruction::SetFeeParams {
                price_estimator: Address { bytes: read_array32(rest, 0) },
                usd_token_address: Address { bytes: read_array32(rest, 32) },
                fees_in_usd: read_u64(rest, 64),
                company_wallet: Address { bytes: read_array32(rest, 72) },
            }
        } else if tag == 7 {
            LockTokenInstruction::SetFeesInUSD { fees_in_usd: read_u64(rest, 0) }
        } else if tag == 8 {
            LockTokenInstruction::SetCompanyWallet {
                company_wallet: Address { bytes: read_array32(rest, 0) },
            }
        } else if tag == 9 {
            LockTokenInstruction::SetFreeToken {
                mint_address: Address { bytes: read_array32(rest, 0) },
                is_free: rest[32] == 1,
            }
        } else {
            LockTokenInstruction::TransferOwnership {  }
        };
        assert(r =~= input@.subrange(1, n as int));
        assert(ins@ == decode_payload(tag, r));
        Ok(ins)
    }

    /// Encodes the instruction: its tag byte, then its fields in order.
    pub fn pack(&self) -> (r: Vec<u8>)
        ensures
            r@ == spec_encode(self@),
    {
        let mut buf: Vec<u8> = Vec::new();
        match self {
            LockTokenInstruction::Init { seeds, number_of_schedules } => {
                buf.push(0);
                push_all(&mut buf, seeds.as_slice());
                push_all(&mut buf, u32_to_le_bytes(*number_of_schedules).as_slice());
            },
            LockTokenInstruction::Create {
                seeds,
                mint_address,
                destination_token_address,
                schedules,
            } => {
                buf.push(1);
                push_all(&mut buf, seeds.as_slice());
                push_all(&mut buf, mint_address.bytes.as_slice());
                push_all(&mut buf, destination_token_address.bytes.as_slice());
                pack_entries(schedules, &mut buf);
            },
            LockTokenInstruction::Unlock { seeds } => {
                buf.push(2);
                push_all(&mut buf, seeds.as_slice());
            },
            LockTokenInstruction::TransferLocks { seeds } => {
                buf.push(3);
                push_all(&mut buf, seeds.as_slice());
            },
            LockTokenInstruction::ExtendLockDuration { seeds, index, release_time } => {
                buf.push(4);
                push_all(&mut buf, seeds.as_slice());
                push_all(&mut buf, u32_to_le_bytes(*index).as_slice());
                push_all(&mut buf, u64_to_le_bytes(*release_time).as_slice());
            },
            LockTokenInstruction::PauseContract { is_pause } => {
                buf.push(5);
                buf.push(if *is_pause { 1 } else { 0 });
            },
            LockTokenInstruction::SetFeeParams {
                price_estimator,
                usd_token_address,
                fees_in_usd,
                company_wallet,
            } => {
                buf.push(6);
                push_all(&mut buf, price_estimator.bytes.as_slice());
                push_all(&mut buf, usd_token_address.bytes.as_slice());
                push_all(&mut buf, u64_to_le_bytes(*fees_in_usd).as_slice());
                push_all(&mut buf, company_wallet.bytes.as_slice());
            },
            LockTokenInstruction::SetFeesInUSD { fees_in_usd } => {
                buf.push(7);
                push_all(&mut buf, u64_to_le_bytes(*fees_in_usd).as_slice());
            },
            LockTokenInstruction::SetCompanyWallet { company_wallet } => {
                buf.push(8);
                push_all(&mut buf, company_wallet.bytes.as_slice());
            },
            LockTokenInstruction::SetFreeToken { mint_address, is_free } => {
                buf.push(9);
                push_all(&mut buf, mint_address.bytes.as_slice());
                buf.push(if *is_free { 1 } else { 0 });
            },
            LockTokenInstruction::TransferOwnership {  } => {
                buf.push(10);
            },
        }
        assert(buf@ =~= spec_encode(self@));
        buf
    }
}

/// One account that an instruction names, with the access it asks for.
#[derive(Clone, Copy, Debug)]
pub struct AccountMeta {
    pub pubkey: Address,
    pub is_signer: bool,
    pub is_writable: bool,
}

impl AccountMeta {
    /// A writable account.
    pub fn new(pubkey: Address, is_signer: bool) -> (r: AccountMeta)
        ensures
            r.pubkey == pubkey && r.is_signer == is_signer && r.is_writable,
    {
        AccountMeta { pubkey, is_signer, is_writable: true }
    }

    /// A read-only account.
    pub fn new_readonly(pubkey: Address, is_signer: bool) -> (r: AccountMeta)
        ensures
            r.pubkey == pubkey && r.is_signer == is_signer && !r.is_writable,
    {
        AccountMeta { pubkey, is_signer, is_writable: false }
    }
}

pub open spec fn meta(pubkey: Address, is_signer: bool, is_writable: bool) -> AccountMeta {
    AccountMeta { pubkey, is_signer, is_writable }
}

/// A call of a program: its identity, the accounts it names and its encoded operation.
#[derive(Clone, Debug)]
pub struct Instruction {
    pub program_id: Address,
    pub accounts: Vec<AccountMeta>,
    pub data: Vec<u8>,
}

/// Builds an init call of the lock program.
pub fn init(
    system_program_id: &Address,
    rent_program_id: &Address,
    locking_program_id: &Address,
    payer_key: &Address,
    locking_account: &Address,
    seeds: [u8; 32],
    number_of_schedules: u32,
) -> (r: Result<Instruction, LockTokenError>)
    ensures
        r matches Ok(i) && i.program_id == *locking_program_id && i.data@ == spec_encode(
            InstructionView::Init { seeds: seeds@, number_of_schedules },
        ) && i.accounts@ == seq![
            meta(*system_program_id, false, false),
            meta(*rent_program_id, false, false),
            meta(*payer_key, true, true),
            meta(*locking_account, false, true),
        ],
{
    let data = LockTokenInstruction::Init { seeds, number_of_schedules }.pack();
    let accounts = vec![
        AccountMeta::new_readonly(*system_program_id, false),
        AccountMeta::new_readonly(*rent_program_id, false),
        AccountMeta::new(*payer_key, true),
        AccountMeta::new(*locking_account, false),
    ];
    assert(accounts@ =~= seq![
        meta(*system_program_id, false, false),
        meta(*rent_program_id, false, false),
        meta(*payer_key, true, true),
        meta(*locking_account, false, true),
    ]);
    Ok(Instruction { program_id: *locking_program_id, accounts, data })
}

/// Builds a create call of the lock program.
pub fn create(
    locking_program_id: &Address,
    token_program_id: &Address,
    locking_account_key: &Address,
    locking_token_account_key: &Address,
    source_token_account_owner_key: &Address,
    source_token_account_key: &Address,
    destination_token_account_key: &Address,
    mint_address: &Address,
    schedules: Vec<Schedule>,
    seeds: [u8; 32],
) -> (r: Result<Instruction, LockTokenError>)
    ensures
        r matches Ok(i) && i.program_id == *locking_program_id && i.data@ == spec_encode(
            InstructionView::Create {
                seeds: seeds@,
                mint_address: mint_address@,
                destination_token_address: destination_token_account_key@,
                schedules: schedules@,
            },
        ) && i.accounts@ == seq![
            meta(*token_program_id, false, false),
            meta(*locking_account_key, false, true),
            meta(*locking_token_account_key, false, true),
            meta(*source_token_account_owner_key, true, false),
            meta(*source_token_account_key, false, true),
        ],
{
    let data = LockTokenInstruction::Create {
        mint_address: *mint_address,
        seeds,
        destination_token_address: *destination_token_account_key,
        schedules,
    }.pack();
    let accounts = vec![
        AccountMeta::new_readonly(*token_program_id, false),
        AccountMeta::new(*locking_account_key, false),
        AccountMeta::new(*locking_token_account_key, false),
        AccountMeta::new_readonly(*source_token_account_owner_key, true),
        AccountMeta::new(*source_token_account_key, false),
    ];
    assert(accounts@ =~= seq![
        meta(*token_program_id, false, false),
        meta(*locking_account_key, false, true),
        meta(*locking_token_account_key, false, true),
        meta(*source_token_account_owner_key, true, false),
        meta(*source_token_account_key, false, true),
    ]);
    Ok(Instruction { program_id: *locking_program_id, accounts, data })
}

/// Builds an unlock call of the lock program.
pub fn unlock(
    locking_program_id: &Address,
    token_program_id: &Address,
    clock_sysvar_id: &Address,
    locking_account_key: &Address,
    locking_token_account_key: &Address,
    destination_token_account_key: &Address,
    seeds: [u8; 32],
) -> (r: Result<Instruction, LockTokenError>)
    ensures
        r matches Ok(i) && i.program_id == *locking_program_id && i.data@ == spec_encode(
            InstructionView::Unlock { seeds: seeds@ },
        ) && i.accounts@ == seq![
            meta(*token_program_id, false, false),
            meta(*clock_sysvar_id, false, false),
            meta(*locking_account_key, false, true),
            meta(*locking_token_account_key, false, true),
            meta(*destination_token_account_key, false, true),
        ],
{
    let data = LockTokenInstruction::Unlock { seeds }.pack();
    let accounts = vec![
        AccountMeta::new_readonly(*token_program_id, false),
        AccountMeta::new_readonly(*clock_sysvar_id, false),
        AccountMeta::new(*locking_account_key, false),
        AccountMeta::new(*locking_token_account_key, false),
        AccountMeta::new(*destination_token_account_key, false),
    ];
    assert(accounts@ =~= seq![
        meta(*token_program_id, false, false),
        meta(*clock_sysvar_id, false, false),
        meta(*locking_account_key, false, true),
        meta(*locking_token_account_key, false, true),
        meta(*destination_token_account_key, false, true),
    ]);
    Ok(Instruction { program_id: *locking_program_id, accounts, data })
}

/// Builds a transfer-locks call of the lock program.
pub fn transfer_locks(
    locking_program_id: &Address,
    locking_account_key: &Address,
    current_destination_token_account_owner: &Address,
    current_destination_token_account: &Address,
    target_destination_token_account: &Address,
    seeds: [u8; 32],
) -> (r: Result<Instruction, LockTokenError>)
    ensures
        r matches Ok(i) && i.program_id == *locking_program_id && i.data@ == spec_encode(
            InstructionView::TransferLocks { seeds: seeds@ },
        ) && i.accounts@ == seq![
            meta(*locking_account_key, false, true),
            meta(*current_destination_token_account, false, false),
            meta(*current_destination_token_account_owner, true, false),
            meta(*target_destination_token_account, false, false),
        ],
{
    let data = LockTokenInstruction::TransferLocks { seeds }.pack();
    let accounts = vec![
        AccountMeta::new(*locking_account_key, false),
        AccountMeta::new_readonly(*current_destination_token_account, false),
        AccountMeta::new_readonly(*current_destination_token_account_owner, true),
        AccountMeta::new_readonly(*target_destination_token_account, false),
    ];
    assert(accounts@ =~= seq![
        meta(*locking_account_key, false, true),
        meta(*current_destination_token_account, false, false),
        meta(*current_destination_token_account_owner, true, false),
        meta(*target_destination_token_account, false, false),
    ]);
    Ok(Instruction { program_id: *locking_program_id, accounts, data })
}

/// Builds an extend-lock-duration call of the lock program.
pub fn extend_lock_duration(
    locking_program_id: &Address,
    locking_account_key: &Address,
    destination_token_account_owner: &Address,
    destination_token_account: &Address,
    seeds: [u8; 32],
    index: u32,
    release_time: u64,
) -> (r: Result<Instruction, LockTokenError>)
    ensures
        r matches Ok(i) && i.program_id == *locking_program_id && i.data@ == spec_encode(
            InstructionView::ExtendLockDuration { seeds: seeds@, index, release_time },
        ) && i.accounts@ == seq![
            meta(*locking_account_key, false, true),
            meta(*destination_token_account, false, false),
            meta(*destination_token_account_owner, true, false),
        ],
{
    let data = LockTokenInstruction::ExtendLockDuration { seeds, index, release_time }.pack();
    let accounts = vec![
        AccountMeta::new(*locking_account_key, false),
        AccountMeta::new_readonly(*destination_token_account, false),
        AccountMeta::new_readonly(*destination_token_account_owner, true),
    ];
    assert(accounts@ =~= seq![
        meta(*locking_account_key, false, true),
        meta(*destination_token_account, false, false),
        meta(*destination_token_account_owner, true, false),
    ]);
    Ok(Instruction { program_id: *locking_program_id, accounts, data })
}

/// A buffer that is empty, or whose tag byte is not one of the eleven operations, decodes
/// to nothing.
pub proof fn lemma_decode_rejects_empty_and_unknown_tags(b: Seq<u8>)
    ensures
        b.len() == 0 ==> spec_decode(b) is None,
        b.len() > 0 && b[0] > 10 ==> spec_decode(b) is None,
{
}

} // verus!
