use crate::address::Address;
use crate::bytes::{flag_byte, flag_of, splice, u64_at, write_at};
use vstd::bytes::{spec_u64_to_le_bytes, u64_to_le_bytes};
use crate::error::LockTokenError;
use crate::host::{
    derive_program_address, parse_address, spec_token_program_id, token_program_id, program_address, base58_address, token_account_layout,
    unpack_token_account, TokenAccount,
};
use crate::instruction::{pack_entries, schedules_bytes, spec_decode, LockTokenInstruction, Schedule};
use crate::state::{
    lock_schedules_bytes, lock_schedules_of, unpack_schedules,
    LockGlobalState, LockSchedule, LockScheduleHeader, TokenState, OWNER_TOKEN_MINT_ADDRESS,
};
use vstd::prelude::*;
use vstd::slice::slice_subrange;
use vstd::string::StringSliceAdditionalSpecFns;

verus! {

/// A storage cell as one call sees it: its address, its owning program, whether the call
/// carries its signature, and its bytes.
#[derive(Clone, Debug)]
pub struct LedgerAccount {
    pub key: Address,
    pub owner: Address,
    pub is_signer: bool,
    pub data: Vec<u8>,
}

/// The seed of the global state's derived address.
pub open spec fn global_state_seed() -> Seq<u8> {
    OWNER_TOKEN_MINT_ADDRESS.spec_bytes()
}

fn global_state_address(program_id: &Address) -> (r: Result<Address, LockTokenError>)
    ensures
        match r {
            Ok(a) => program_address(global_state_seed(), program_id@) == Some(a@),
            Err(e) => program_address(global_state_seed(), program_id@) is None
                && e == LockTokenError::InvalidSeeds,
        },
{
    let text = OWNER_TOKEN_MINT_ADDRESS;
    proof {
        reveal_strlit("Token address");
        broadcast use vstd::string::is_ascii_spec_bytes;
        assert(vstd::string::is_ascii(text));
    }
    let seed = text.as_bytes();
    assert(seed@.len() <= 32);
    match derive_program_address(seed, program_id) {
        Some(a) => Ok(a),
        None => Err(LockTokenError::InvalidSeeds),
    }
}

/// Whose authority a token transfer runs under.
#[derive(Clone, Copy, Debug, PartialEq, Eq)]
pub enum Authority {
    /// The authority account signed the call.
    Signature,
    /// The program signs for the locking account that `seeds` derives.
    Derivation { seeds: [u8; 32] },
}

/// The seed under which the program signs for an account that it creates.
#[derive(Clone, Copy, Debug, PartialEq, Eq)]
pub enum AccountSeed {
    /// A locking account, derived from its 32-byte seed.
    Locking { seeds: [u8; 32] },
    /// The global state, derived from its fixed seed.
    GlobalState,
}

/// A call into another program that the host makes on the lock program's behalf.
/// Account fields are positions in the account list of the call.
#[derive(Clone, Copy, Debug, PartialEq, Eq)]
pub enum HostCall {
    /// Creates `new_account` with `space` bytes, owned by the lock program and funded by `payer`.
    CreateAccount {
        system_program: usize,
        payer: usize,
        new_account: usize,
        space: u64,
        seed: AccountSeed,
    },
    /// Moves native lamports.
    TransferLamports { from: usize, to: usize, lamports: u64 },
    /// Moves tokens between two token accounts.
    TransferTokens {
        token_program: usize,
        source: usize,
        destination: usize,
        authority: usize,
        amount: u64,
        signed_by: Authority,
    },
}

/// New bytes for the account at `index` of the call.
#[derive(Clone, Debug)]
pub struct AccountWrite {
    pub index: usize,
    pub data: Vec<u8>,
}

/// What an accepted call does: the host runs `calls` in order and stores `writes`; if any
/// call fails, the whole call fails and nothing is stored.
#[derive(Clone, Debug)]
pub struct Outcome {
    pub writes: Vec<AccountWrite>,
    pub calls: Vec<HostCall>,
}

/// The value of an `Outcome`: each write as its account position and its bytes.
pub struct OutcomeView {
    pub writes: Seq<(usize, Seq<u8>)>,
    pub calls: Seq<HostCall>,
}

impl Outcome {
    pub open spec fn view(&self) -> OutcomeView {
        OutcomeView {
            writes: Seq::new(
                self.writes@.len(),
                |i: int| (self.writes@[i].index, self.writes@[i].data@),
            ),
            calls: self.calls@,
        }
    }
}

pub open spec fn result_view(r: Result<Outcome, LockTokenError>) -> Result<OutcomeView, LockTokenError> {
    match r {
        Ok(o) => Ok(o@),
        Err(e) => Err(e),
    }
}

fn outcome(writes: Vec<AccountWrite>, calls: Vec<HostCall>) -> (r: Outcome)
    ensures
        r.writes == writes,
        r.calls == calls,
{
    Outcome { writes, calls }
}

fn write_one(index: usize, data: Vec<u8>) -> (r: Vec<AccountWrite>)
    ensures
        r@.len() == 1,
        r@[0].index == index,
        r@[0].data@ == data@,
{
    let mut v: Vec<AccountWrite> = Vec::new();
    v.push(AccountWrite { index, data });
    v
}

// ---------------------------------------------------------------- reading token accounts

/// The failure with which a token account's bytes are refused, if any.
pub open spec fn token_account_error(d: Seq<u8>) -> Option<LockTokenError> {
    if !token_account_layout(d) {
        Some(LockTokenError::InvalidAccountData)
    } else if d[108] == 0 {
        Some(LockTokenError::UninitializedAccount)
    } else {
        None
    }
}

pub open spec fn token_mint(d: Seq<u8>) -> Seq<u8> {
    d.subrange(0, 32)
}

pub open spec fn token_owner(d: Seq<u8>) -> Seq<u8> {
    d.subrange(32, 64)
}

pub open spec fn token_amount(d: Seq<u8>) -> u64 {
    u64_at(d, 64)
}

pub open spec fn token_has_delegate(d: Seq<u8>) -> bool {
    d[72] == 1
}

pub open spec fn token_has_close_authority(d: Seq<u8>) -> bool {
    d[129] == 1
}

fn read_token_account(acct: &LedgerAccount) -> (r: Result<TokenAccount, LockTokenError>)
    ensures
        match r {
            Ok(a) => {
                &&& token_account_error(acct.data@) is None
                &&& a.mint@ == token_mint(acct.data@)
                &&& a.owner@ == token_owner(acct.data@)
                &&& a.amount == token_amount(acct.data@)
                &&& a.has_delegate == token_has_delegate(acct.data@)
                &&& a.has_close_authority == token_has_close_authority(acct.data@)
            },
            Err(e) => token_account_error(acct.data@) == Some(e),
        },
{
    unpack_token_account(acct.data.as_slice())
}

fn derive(seed: &[u8], program_id: &Address) -> (r: Result<Address, LockTokenError>)
    requires
        seed@.len() <= 32,
    ensures
        match r {
            Ok(a) => program_address(seed@, program_id@) == Some(a@),
            Err(e) => program_address(seed@, program_id@) is None && e
                == LockTokenError::InvalidSeeds,
        },
{
    match derive_program_address(seed, program_id) {
        Some(a) => Ok(a),
        None => Err(LockTokenError::InvalidSeeds),
    }
}

// ---------------------------------------------------------------- gates

/// The checks on the global state that the locking operations share: its derived address,
/// its size, its initialized flag, and that it is not paused.
pub open spec fn global_gate(program_id: Seq<u8>, state: LedgerAccount) -> Result<(), LockTokenError> {
    match program_address(global_state_seed(), program_id) {
        None => Err(LockTokenError::InvalidSeeds),
        Some(k) => if k != state.key@ {
            Err(LockTokenError::InvalidArgument)
        } else if state.data@.len() < 106 {
            Err(LockTokenError::InvalidAccountData)
        } else if !flag_of(state.data@[105]) {
            Err(LockTokenError::InvalidArgument)
        } else if state.data@.len() != 106 {
            Err(LockTokenError::InvalidAccountData)
        } else if flag_of(state.data@[104]) {
            Err(LockTokenError::InvalidArgument)
        } else {
            Ok(())
        },
    }
}

fn check_global_state(program_id: &Address, state: &LedgerAccount) -> (r: Result<(), LockTokenError>)
    ensures
        r == global_gate(program_id@, *state),
{
    let key = global_state_address(program_id)?;
    if key != state.key {
        return Err(LockTokenError::InvalidArgument);
    }
    let data = state.data.as_slice();
    if data.len() < LockGlobalState::LEN {
        return Err(LockTokenError::InvalidAccountData);
    }
    if data[LockGlobalState::LEN - 1] != 1 {
        return Err(LockTokenError::InvalidArgument);
    }
    let g = LockGlobalState::unpack(data)?;
    if g.is_paused {
        return Err(LockTokenError::InvalidArgument);
    }
    Ok(())
}

/// The token account `d` proves administrator rights: it holds a positive balance of the
/// credential mint, whose address is the text `OWNER_TOKEN_MINT_ADDRESS`.
pub open spec fn holds_credential(d: Seq<u8>) -> bool {
    match base58_address(OWNER_TOKEN_MINT_ADDRESS@) {
        Some(m) => m == token_mint(d) && token_amount(d) != 0,
        None => false,
    }
}

/// The checks that the administrator operations share: the global state's derived address,
/// the administrator's signature, the global state's owner (where `check_state_owner`:
/// a global state that is still to be created has no owner yet), and the administrator's
/// credential token account.
pub open spec fn admin_gate(
    program_id: Seq<u8>,
    owner: LedgerAccount,
    owner_token: LedgerAccount,
    state: LedgerAccount,
    check_state_owner: bool,
) -> Result<(), LockTokenError> {
    match program_address(global_state_seed(), program_id) {
        None => Err(LockTokenError::InvalidSeeds),
        Some(k) => if k != state.key@ {
            Err(LockTokenError::InvalidArgument)
        } else if !owner.is_signer {
            Err(LockTokenError::InvalidArgument)
        } else if check_state_owner && state.owner@ != program_id {
            Err(LockTokenError::InvalidArgument)
        } else {
            match token_account_error(owner_token.data@) {
                Some(e) => Err(e),
                None => if token_owner(owner_token.data@) != owner.key@ {
                    Err(LockTokenError::InvalidArgument)
                } else if !holds_credential(owner_token.data@) {
                    Err(LockTokenError::InvalidArgument)
                } else {
                    Ok(())
                },
            }
        },
    }
}

fn check_admin(
    program_id: &Address,
    owner: &LedgerAccount,
    owner_token: &LedgerAccount,
    state: &LedgerAccount,
    check_state_owner: bool,
) -> (r: Result<(), LockTokenError>)
    ensures
        r == admin_gate(program_id@, *owner, *owner_token, *state, check_state_owner),
{
    let key = global_state_address(program_id)?;
    if key != state.key {
        return Err(LockTokenError::InvalidArgument);
    }
    if !owner.is_signer {
        return Err(LockTokenError::InvalidArgument);
    }
    if check_state_owner && state.owner != *program_id {
        return Err(LockTokenError::InvalidArgument);
    }
    let t = read_token_account(owner_token)?;
    if t.owner != owner.key {
        return Err(LockTokenError::InvalidArgument);
    }
    match parse_address(OWNER_TOKEN_MINT_ADDRESS) {
        Some(m) => {
            if m != t.mint || t.amount == 0 {
                return Err(LockTokenError::InvalidArgument);
            }
        },
        None => {
            return Err(LockTokenError::InvalidArgument);
        },
    }
    Ok(())
}

// ---------------------------------------------------------------- sums

/// The sum of a sequence of amounts, as an unbounded integer.
pub open spec fn sum_u64(s: Seq<u64>) -> int
    decreases s.len(),
{
    if s.len() == 0 {
        0
    } else {
        sum_u64(s.drop_last()) + s.last()
    }
}

/// The amounts of a create call's schedule.
pub open spec fn schedule_amounts(s: Seq<Schedule>) -> Seq<u64> {
    s.map_values(|e: Schedule| e.amount)
}

/// An entry has matured once the clock has reached its release time.
pub open spec fn matured(e: LockSchedule, now: u64) -> bool {
    now >= e.release_time
}

/// The amount that each entry releases at `now`: all of it once matured, nothing before.
pub open spec fn matured_amounts(s: Seq<LockSchedule>, now: u64) -> Seq<u64> {
    s.map_values(|e: LockSchedule| if matured(e, now) { e.amount } else { 0 })
}

/// The entries after a release at `now`: each matured entry keeps its time and holds nothing.
pub open spec fn swept(s: Seq<LockSchedule>, now: u64) -> Seq<LockSchedule> {
    s.map_values(
        |e: LockSchedule|
            if matured(e, now) {
                LockSchedule { release_time: e.release_time, amount: 0 }
            } else {
                e
            },
    )
}

proof fn lemma_sum_step(s: Seq<u64>, i: int)
    requires
        0 <= i < s.len(),
    ensures
        sum_u64(s.subrange(0, i + 1)) == sum_u64(s.subrange(0, i)) + s[i],
{
    assert(s.subrange(0, i + 1).drop_last() =~= s.subrange(0, i));
}

proof fn lemma_sum_prefix_le(s: Seq<u64>, i: int)
    requires
        0 <= i <= s.len(),
    ensures
        sum_u64(s.subrange(0, i)) <= sum_u64(s),
    decreases s.len(),
{
    if i == s.len() {
        assert(s.subrange(0, i) =~= s);
    } else {
        let t = s.drop_last();
        lemma_sum_prefix_le(t, i);
        assert(t.subrange(0, i) =~= s.subrange(0, i));
    }
}

proof fn lemma_sum_zero(s: Seq<u64>)
    requires
        forall|i: int| 0 <= i < s.len() ==> s[i] == 0,
    ensures
        sum_u64(s) == 0,
    decreases s.len(),
{
    if s.len() > 0 {
        lemma_sum_zero(s.drop_last());
    }
}

/// The total of a create call's schedule; fails when it does not fit a `u64`.
fn schedule_total(schedules: &Vec<Schedule>) -> (r: Result<u64, LockTokenError>)
    ensures
        match r {
            Ok(t) => t == sum_u64(schedule_amounts(schedules@)),
            Err(e) => sum_u64(schedule_amounts(schedules@)) > u64::MAX && e
                == LockTokenError::InvalidInstructionData,
        },
{
    let ghost amounts = schedule_amounts(schedules@);
    let mut total: u64 = 0;
    let mut i: usize = 0;
    while i < schedules.len()
        invariant
            0 <= i <= schedules@.len(),
            amounts == schedule_amounts(schedules@),
            total == sum_u64(amounts.subrange(0, i as int)),
        decreases schedules@.len() - i,
    {
        proof {
            lemma_sum_step(amounts, i as int);
        }
        match total.checked_add(schedules[i].amount) {
            Some(t) => {
                total = t;
            },
            None => {
                proof {
                    lemma_sum_prefix_le(amounts, i + 1);
                }
                return Err(LockTokenError::InvalidInstructionData);
            },
        }
        i = i + 1;
    }
    assert(amounts.subrange(0, i as int) =~= amounts);
    Ok(total)
}

/// Releases every entry that has matured at `now` and returns the released total; fails
/// when that total does not fit a `u64`.
fn release_matured(entries: &mut Vec<LockSchedule>, now: u64) -> (r: Result<u64, LockTokenError>)
    ensures
        match r {
            Ok(t) => t == sum_u64(matured_amounts(old(entries)@, now)) && final(entries)@ == swept(
                old(entries)@,
                now,
            ),
            Err(e) => sum_u64(matured_amounts(old(entries)@, now)) > u64::MAX && e
                == LockTokenError::InvalidAccountData,
        },
{
    let ghost amounts = matured_amounts(entries@, now);
    let ghost target = swept(entries@, now);
    let n = entries.len();
    let mut total: u64 = 0;
    let mut i: usize = 0;
    while i < n
        invariant
            0 <= i <= n,
            n == entries@.len(),
            n == old(entries)@.len(),
            amounts == matured_amounts(old(entries)@, now),
            target == swept(old(entries)@, now),
            total == sum_u64(amounts.subrange(0, i as int)),
            forall|j: int| 0 <= j < i ==> entries@[j] == target[j],
            forall|j: int| i <= j < n ==> entries@[j] == old(entries)@[j],
        decreases n - i,
    {
        proof {
            lemma_sum_step(amounts, i as int);
        }
        let e = entries[i];
        if now >= e.release_time {
            match total.checked_add(e.amount) {
                Some(t) => {
                    total = t;
                },
                None => {
                    proof {
                        lemma_sum_prefix_le(amounts, i + 1);
                    }
                    return Err(LockTokenError::InvalidAccountData);
                },
            }
            entries.set(i, LockSchedule { release_time: e.release_time, amount: 0 });
        }
        i = i + 1;
    }
    assert(amounts.subrange(0, n as int) =~= amounts);
    assert(entries@ =~= target);
    Ok(total)
}

// ---------------------------------------------------------------- create

/// The onboarding fee in lamports that a create call pays, read from the token fee record
/// `d`: the flat fee when the record is initialized and its flag is set, nothing otherwise.
pub open spec fn create_fee(d: Seq<u8>) -> u64 {
    if flag_of(d[33]) && flag_of(d[32]) {
        100
    } else {
        0
    }
}

/// What a create call does. Accounts: token program, global state, locking account,
/// locking token account, source owner, source token account, token fee record, company
/// wallet.
pub open spec fn spec_create(
    program_id: Seq<u8>,
    acc: Seq<LedgerAccount>,
    seeds: [u8; 32],
    mint: Address,
    destination: Address,
    schedules: Seq<Schedule>,
) -> Result<OutcomeView, LockTokenError> {
    if acc.len() < 8 {
        Err(LockTokenError::NotEnoughAccountKeys)
    } else {
        match global_gate(program_id, acc[1]) {
            Err(e) => Err(e),
            Ok(_) => match program_address(seeds@, program_id) {
                None => Err(LockTokenError::InvalidSeeds),
                Some(lk) => if lk != acc[2].key@ {
                    Err(LockTokenError::InvalidArgument)
                } else if !acc[4].is_signer {
                    Err(LockTokenError::InvalidArgument)
                } else if acc[2].owner@ != program_id {
                    Err(LockTokenError::InvalidArgument)
                } else if acc[2].data@.len() < 65 {
                    Err(LockTokenError::InvalidAccountData)
                } else if flag_of(acc[2].data@[64]) {
                    Err(LockTokenError::InvalidArgument)
                } else {
                    match token_account_error(acc[3].data@) {
                        Some(e) => Err(e),
                        None => if token_owner(acc[3].data@) != lk {
                            Err(LockTokenError::InvalidArgument)
                        } else if token_has_delegate(acc[3].data@) {
                            Err(LockTokenError::InvalidAccountData)
                        } else if token_has_close_authority(acc[3].data@) {
                            Err(LockTokenError::InvalidAccountData)
                        } else {
                            create_funding(program_id, acc, seeds, mint, destination, schedules)
                        },
                    }
                },
            },
        }
    }
}

/// The second half of a create call, from the token fee record on.
pub open spec fn create_funding(
    program_id: Seq<u8>,
    acc: Seq<LedgerAccount>,
    seeds: [u8; 32],
    mint: Address,
    destination: Address,
    schedules: Seq<Schedule>,
) -> Result<OutcomeView, LockTokenError> {
    let fee_record = acc[6].data@;
    let total = sum_u64(schedule_amounts(schedules));
    match program_address(mint@, program_id) {
        None => Err(LockTokenError::InvalidSeeds),
        Some(tk) => if tk != acc[6].key@ {
            Err(LockTokenError::InvalidArgument)
        } else if fee_record.len() < 34 {
            Err(LockTokenError::InvalidAccountData)
        } else if flag_of(fee_record[33]) && fee_record.subrange(0, 32) != mint@ {
            Err(LockTokenError::InvalidArgument)
        } else if acc[2].data@.len() != 65 + 16 * schedules.len() {
            Err(LockTokenError::InvalidAccountData)
        } else if total > u64::MAX {
            Err(LockTokenError::InvalidInstructionData)
        } else {
            match token_account_error(acc[5].data@) {
                Some(e) => Err(e),
                None => if token_amount(acc[5].data@) < total {
                    Err(LockTokenError::InsufficientFunds)
                } else {
                    Ok(
                        OutcomeView {
                            writes: seq![
                                (
                                    2usize,
                                    destination@ + mint@ + seq![1u8] + schedules_bytes(schedules),
                                ),
                            ],
                            calls: seq![
                                HostCall::TransferLamports {
                                    from: 4,
                                    to: 7,
                                    lamports: create_fee(fee_record),
                                },
                                HostCall::TransferTokens {
                                    token_program: 0,
                                    source: 5,
                                    destination: 3,
                                    authority: 4,
                                    amount: total as u64,
                                    signed_by: Authority::Signature,
                                },
                            ],
                        },
                    )
                },
            }
        },
    }
}

// ---------------------------------------------------------------- unlock

/// What an unlock call does at clock time `clock`. Accounts: token program, clock, global
/// state, locking account, locking token account, destination token account.
pub open spec fn spec_unlock(
    program_id: Seq<u8>,
    acc: Seq<LedgerAccount>,
    seeds: [u8; 32],
    clock: Result<i64, LockTokenError>,
) -> Result<OutcomeView, LockTokenError> {
    if acc.len() < 6 {
        Err(LockTokenError::NotEnoughAccountKeys)
    } else {
        match global_gate(program_id, acc[2]) {
            Err(e) => Err(e),
            Ok(_) => match program_address(seeds@, program_id) {
                None => Err(LockTokenError::InvalidSeeds),
                Some(lk) => {
                    let d = acc[3].data@;
                    if lk != acc[3].key@ {
                        Err(LockTokenError::InvalidArgument)
                    } else if acc[0].key@ != spec_token_program_id() {
                        Err(LockTokenError::InvalidArgument)
                    } else if d.len() < 65 {
                        Err(LockTokenError::InvalidAccountData)
                    } else if !flag_of(d[64]) {
                        Err(LockTokenError::UninitializedAccount)
                    } else if d.subrange(0, 32) != acc[5].key@ {
                        Err(LockTokenError::InvalidArgument)
                    } else {
                        match token_account_error(acc[4].data@) {
                            Some(e) => Err(e),
                            None => if token_owner(acc[4].data@) != lk {
                                Err(LockTokenError::InvalidArgument)
                            } else {
                                match clock {
                                    Err(e) => Err(e),
                                    Ok(t) => unlock_release(acc, seeds, #[verifier::truncate] (t as u64)),
                                }
                            },
                        }
                    }
                },
            },
        }
    }
}

/// The entries of a locking account's bytes `d`, which follow its header.
pub open spec fn entries_of(d: Seq<u8>) -> Seq<LockSchedule> {
    lock_schedules_of(d.subrange(65, d.len() as int))
}

/// The release step of an unlock call at time `now`, once every check has passed.
pub open spec fn unlock_release(acc: Seq<LedgerAccount>, seeds: [u8; 32], now: u64) -> Result<
    OutcomeView,
    LockTokenError,
> {
    let d = acc[3].data@;
    let entries = entries_of(d);
    let total = sum_u64(matured_amounts(entries, now));
    if total > u64::MAX {
        Err(LockTokenError::InvalidAccountData)
    } else if total == 0 {
        Err(LockTokenError::InvalidArgument)
    } else {
        Ok(
            OutcomeView {
                writes: seq![(3usize, splice(d, 65, lock_schedules_bytes(swept(entries, now))))],
                calls: seq![
                    HostCall::TransferTokens {
                        token_program: 0,
                        source: 4,
                        destination: 5,
                        authority: 3,
                        amount: total as u64,
                        signed_by: Authority::Derivation { seeds },
                    },
                ],
            },
        )
    }
}


/// `o` once the checks `g` have passed; the failure of `g` otherwise.
pub open spec fn when_ok(g: Result<(), LockTokenError>, o: OutcomeView) -> Result<OutcomeView, LockTokenError> {
    match g {
        Ok(_) => Ok(o),
        Err(e) => Err(e),
    }
}

// ---------------------------------------------------------------- init

/// What an init call does. Accounts: system program, global state, rent, payer, locking
/// account.
pub open spec fn spec_init(
    program_id: Seq<u8>,
    acc: Seq<LedgerAccount>,
    seeds: [u8; 32],
    number_of_schedules: u32,
) -> Result<OutcomeView, LockTokenError> {
    if acc.len() < 5 {
        Err(LockTokenError::NotEnoughAccountKeys)
    } else {
        match global_gate(program_id, acc[1]) {
            Err(e) => Err(e),
            Ok(_) => match program_address(seeds@, program_id) {
                None => Err(LockTokenError::InvalidSeeds),
                Some(lk) => if lk != acc[4].key@ {
                    Err(LockTokenError::InvalidArgument)
                } else {
                    Ok(
                        OutcomeView {
                            writes: seq![],
                            calls: seq![
                                HostCall::CreateAccount {
                                    system_program: 0,
                                    payer: 3,
                                    new_account: 4,
                                    space: (65 + 16 * number_of_schedules) as u64,
                                    seed: AccountSeed::Locking { seeds },
                                },
                            ],
                        },
                    )
                },
            },
        }
    }
}

// ---------------------------------------------------------------- transfer locks

/// What a transfer-locks call does. Accounts: global state, locking account, current
/// destination token account, its owner, new destination token account.
pub open spec fn spec_transfer_locks(
    program_id: Seq<u8>,
    acc: Seq<LedgerAccount>,
    seeds: [u8; 32],
) -> Result<OutcomeView, LockTokenError> {
    if acc.len() < 5 {
        Err(LockTokenError::NotEnoughAccountKeys)
    } else {
        let d = acc[1].data@;
        match global_gate(program_id, acc[0]) {
            Err(e) => Err(e),
            Ok(_) => if d.len() < 65 {
                Err(LockTokenError::InvalidAccountData)
            } else {
                match program_address(seeds@, program_id) {
                    None => Err(LockTokenError::InvalidSeeds),
                    Some(lk) => if lk != acc[1].key@ {
                        Err(LockTokenError::InvalidArgument)
                    } else if !flag_of(d[64]) {
                        Err(LockTokenError::UninitializedAccount)
                    } else {
                        when_ok(destination_owner_gate(acc, d),
                            OutcomeView { writes: seq![(1usize, splice(d, 0, acc[4].key@))], calls: seq![] },
                        )
                    },
                }
            },
        }
    }
}

/// The checks that tie a call to the owner of a locking account's current destination:
/// account 2 is the destination that the header `d` names, account 3 signed, and account 3
/// owns account 2.
pub open spec fn destination_owner_gate(acc: Seq<LedgerAccount>, d: Seq<u8>) -> Result<(), LockTokenError> {
    if d.subrange(0, 32) != acc[2].key@ {
        Err(LockTokenError::InvalidArgument)
    } else if !acc[3].is_signer {
        Err(LockTokenError::InvalidArgument)
    } else {
        match token_account_error(acc[2].data@) {
            Some(e) => Err(e),
            None => if token_owner(acc[2].data@) != acc[3].key@ {
                Err(LockTokenError::InvalidArgument)
            } else {
                Ok(())
            },
        }
    }
}

// ---------------------------------------------------------------- extend lock duration

/// Offset of entry `index` in a locking account's bytes.
pub open spec fn entry_offset(index: u32) -> int {
    65 + 16 * index
}

/// What an extend-lock-duration call does. Accounts: global state, locking account,
/// destination token account, its owner.
pub open spec fn spec_extend_lock_duration(
    program_id: Seq<u8>,
    acc: Seq<LedgerAccount>,
    seeds: [u8; 32],
    index: u32,
    release_time: u64,
) -> Result<OutcomeView, LockTokenError> {
    if acc.len() < 4 {
        Err(LockTokenError::NotEnoughAccountKeys)
    } else {
        let d = acc[1].data@;
        let at = entry_offset(index);
        match global_gate(program_id, acc[0]) {
            Err(e) => Err(e),
            Ok(_) => if d.len() < at + 16 {
                Err(LockTokenError::InvalidAccountData)
            } else {
                match program_address(seeds@, program_id) {
                    None => Err(LockTokenError::InvalidSeeds),
                    Some(lk) => if lk != acc[1].key@ {
                        Err(LockTokenError::InvalidArgument)
                    } else if u64_at(d, at) > release_time {
                        Err(LockTokenError::InvalidArgument)
                    } else {
                        when_ok(destination_owner_gate(acc, d),
                            OutcomeView {
                                writes: seq![(1usize, splice(d, at, spec_u64_to_le_bytes(release_time)))],
                                calls: seq![],
                            },
                        )
                    },
                }
            },
        }
    }
}

// ---------------------------------------------------------------- administration

/// The bytes of an initialized global state with the given fields.
pub open spec fn global_bytes(
    price_estimator: Seq<u8>,
    usd_token_address: Seq<u8>,
    fees_in_usd: u64,
    company_wallet: Seq<u8>,
    is_paused: bool,
) -> Seq<u8> {
    price_estimator + usd_token_address + spec_u64_to_le_bytes(fees_in_usd) + company_wallet
        + seq![flag_byte(is_paused), 1u8]
}

/// The checks on a stored global state before an administrator changes it.
pub open spec fn stored_global_gate(d: Seq<u8>, exact: bool) -> Result<(), LockTokenError> {
    if d.len() < 106 {
        Err(LockTokenError::InvalidAccountData)
    } else if !flag_of(d[105]) {
        Err(LockTokenError::InvalidArgument)
    } else if exact && d.len() != 106 {
        Err(LockTokenError::InvalidAccountData)
    } else {
        Ok(())
    }
}

/// What a pause call does. Accounts: administrator, its credential token account, global
/// state.
pub open spec fn spec_pause_contract(program_id: Seq<u8>, acc: Seq<LedgerAccount>, is_pause: bool) -> Result<
    OutcomeView,
    LockTokenError,
> {
    if acc.len() < 3 {
        Err(LockTokenError::NotEnoughAccountKeys)
    } else {
        let d = acc[2].data@;
        match admin_gate(program_id, acc[0], acc[1], acc[2], true) {
            Err(e) => Err(e),
            Ok(_) => when_ok(stored_global_gate(d, false),
                OutcomeView {
                    writes: seq![
                        (
                            2usize,
                            splice(
                                d,
                                0,
                                global_bytes(
                                    d.subrange(0, 32),
                                    d.subrange(32, 64),
                                    u64_at(d, 64),
                                    d.subrange(72, 104),
                                    is_pause,
                                ),
                            ),
                        ),
                    ],
                    calls: seq![],
                },
            ),
        }
    }
}

/// What a set-fee-params call does. Accounts: system program, rent, administrator, its
/// credential token account, global state. A global state that is missing or not
/// initialized is created, unpaused; its owner is checked only when it already exists.
pub open spec fn spec_set_fee_params(
    program_id: Seq<u8>,
    acc: Seq<LedgerAccount>,
    price_estimator: Seq<u8>,
    usd_token_address: Seq<u8>,
    fees_in_usd: u64,
    company_wallet: Seq<u8>,
) -> Result<OutcomeView, LockTokenError> {
    if acc.len() < 5 {
        Err(LockTokenError::NotEnoughAccountKeys)
    } else {
        let d = acc[4].data@;
        let absent = d.len() < 106 || !flag_of(d[105]);
        match admin_gate(program_id, acc[2], acc[3], acc[4], !absent) {
            Err(e) => Err(e),
            Ok(_) => if absent {
                Ok(
                    OutcomeView {
                        writes: seq![
                            (
                                4usize,
                                global_bytes(
                                    price_estimator,
                                    usd_token_address,
                                    fees_in_usd,
                                    company_wallet,
                                    false,
                                ),
                            ),
                        ],
                        calls: seq![
                            HostCall::CreateAccount {
                                system_program: 0,
                                payer: 2,
                                new_account: 4,
                                space: 106,
                                seed: AccountSeed::GlobalState,
                            },
                        ],
                    },
                )
            } else if d.len() != 106 {
                Err(LockTokenError::InvalidAccountData)
            } else {
                Ok(
                    OutcomeView {
                        writes: seq![
                            (
                                4usize,
                                global_bytes(
                                    price_estimator,
                                    usd_token_address,
                                    fees_in_usd,
                                    company_wallet,
                                    flag_of(d[104]),
                                ),
                            ),
                        ],
                        calls: seq![],
                    },
                )
            },
        }
    }
}

/// What a set-fees-in-USD call does. Accounts: administrator, its credential token
/// account, global state.
pub open spec fn spec_set_fees_in_usd(program_id: Seq<u8>, acc: Seq<LedgerAccount>, fees_in_usd: u64) -> Result<
    OutcomeView,
    LockTokenError,
> {
    if acc.len() < 3 {
        Err(LockTokenError::NotEnoughAccountKeys)
    } else {
        let d = acc[2].data@;
        match admin_gate(program_id, acc[0], acc[1], acc[2], true) {
            Err(e) => Err(e),
            Ok(_) => when_ok(stored_global_gate(d, true),
                OutcomeView {
                    writes: seq![
                        (
                            2usize,
                            global_bytes(
                                d.subrange(0, 32),
                                d.subrange(32, 64),
                                fees_in_usd,
                                d.subrange(72, 104),
                                flag_of(d[104]),
                            ),
                        ),
                    ],
                    calls: seq![],
                },
            ),
        }
    }
}

/// What a set-company-wallet call does. Accounts: administrator, its credential token
/// account, global state.
pub open spec fn spec_set_company_wallet(
    program_id: Seq<u8>,
    acc: Seq<LedgerAccount>,
    company_wallet: Seq<u8>,
) -> Result<OutcomeView, LockTokenError> {
    if acc.len() < 3 {
        Err(LockTokenError::NotEnoughAccountKeys)
    } else {
        let d = acc[2].data@;
        match admin_gate(program_id, acc[0], acc[1], acc[2], true) {
            Err(e) => Err(e),
            Ok(_) => when_ok(stored_global_gate(d, true),
                OutcomeView {
                    writes: seq![
                        (
                            2usize,
                            global_bytes(
                                d.subrange(0, 32),
                                d.subrange(32, 64),
                                u64_at(d, 64),
                                company_wallet,
                                flag_of(d[104]),
                            ),
                        ),
                    ],
                    calls: seq![],
                },
            ),
        }
    }
}

/// What a set-free-token call does. Accounts: administrator, its credential token account,
/// global state, token fee record.
pub open spec fn spec_set_free_token(
    program_id: Seq<u8>,
    acc: Seq<LedgerAccount>,
    mint: Seq<u8>,
    is_free: bool,
) -> Result<OutcomeView, LockTokenError> {
    if acc.len() < 4 {
        Err(LockTokenError::NotEnoughAccountKeys)
    } else {
        let d = acc[2].data@;
        let t = acc[3].data@;
        match admin_gate(program_id, acc[0], acc[1], acc[2], true) {
            Err(e) => Err(e),
            Ok(_) => match stored_global_gate(d, false) {
                Err(e) => Err(e),
                Ok(_) => if flag_of(d[104]) {
                    Err(LockTokenError::InvalidArgument)
                } else {
                    match program_address(mint, program_id) {
                        None => Err(LockTokenError::InvalidSeeds),
                        Some(tk) => if tk != acc[3].key@ {
                            Err(LockTokenError::InvalidArgument)
                        } else if t.len() != 34 {
                            Err(LockTokenError::InvalidAccountData)
                        } else if !flag_of(t[33]) {
                            Err(LockTokenError::UninitializedAccount)
                        } else if t.subrange(0, 32) != mint {
                            Err(LockTokenError::InvalidArgument)
                        } else {
                            Ok(
                                OutcomeView {
                                    writes: seq![(3usize, mint + seq![flag_byte(is_free), 1u8])],
                                    calls: seq![],
                                },
                            )
                        },
                    }
                },
            },
        }
    }
}

/// What a transfer-ownership call does. Accounts: token program, old administrator, its
/// token account, new administrator, its token account.
pub open spec fn spec_transfer_ownership(acc: Seq<LedgerAccount>) -> Result<OutcomeView, LockTokenError> {
    if acc.len() < 5 {
        Err(LockTokenError::NotEnoughAccountKeys)
    } else if !acc[1].is_signer {
        Err(LockTokenError::InvalidArgument)
    } else {
        match token_account_error(acc[2].data@) {
            Some(e) => Err(e),
            None => if token_owner(acc[2].data@) != acc[1].key@ {
                Err(LockTokenError::InvalidArgument)
            } else if token_amount(acc[2].data@) == 0 {
                Err(LockTokenError::InvalidArgument)
            } else {
                match token_account_error(acc[4].data@) {
                    Some(e) => Err(e),
                    None => if token_owner(acc[4].data@) != acc[3].key@ {
                        Err(LockTokenError::InvalidArgument)
                    } else {
                        Ok(
                            OutcomeView {
                                writes: seq![],
                                calls: seq![
                                    HostCall::TransferTokens {
                                        token_program: 0,
                                        source: 2,
                                        destination: 4,
                                        authority: 1,
                                        amount: 1,
                                        signed_by: Authority::Signature,
                                    },
                                ],
                            },
                        )
                    },
                }
            },
        }
    }
}

// ---------------------------------------------------------------- dispatch

/// What a decoded instruction does.
pub open spec fn spec_dispatch(
    program_id: Seq<u8>,
    acc: Seq<LedgerAccount>,
    ins: LockTokenInstruction,
    clock: Result<i64, LockTokenError>,
) -> Result<OutcomeView, LockTokenError> {
    match ins {
        LockTokenInstruction::Init { seeds, number_of_schedules } => spec_init(
            program_id,
            acc,
            seeds,
            number_of_schedules,
        ),
        LockTokenInstruction::Create { seeds, mint_address, destination_token_address, schedules } =>
            spec_create(program_id, acc, seeds, mint_address, destination_token_address, schedules@),
        LockTokenInstruction::Unlock { seeds } => spec_unlock(program_id, acc, seeds, clock),
        LockTokenInstruction::TransferLocks { seeds } => spec_transfer_locks(program_id, acc, seeds),
        LockTokenInstruction::ExtendLockDuration { seeds, index, release_time } =>
            spec_extend_lock_duration(program_id, acc, seeds, index, release_time),
        LockTokenInstruction::PauseContract { is_pause } => spec_pause_contract(program_id, acc, is_pause),
        LockTokenInstruction::SetFeeParams {
            price_estimator,
            usd_token_address,
            fees_in_usd,
            company_wallet,
        } => spec_set_fee_params(
            program_id,
            acc,
            price_estimator@,
            usd_token_address@,
            fees_in_usd,
            company_wallet@,
        ),
        LockTokenInstruction::SetFeesInUSD { fees_in_usd } => spec_set_fees_in_usd(program_id, acc, fees_in_usd),
        LockTokenInstruction::SetCompanyWallet { company_wallet } => spec_set_company_wallet(
            program_id,
            acc,
            company_wallet@,
        ),
        LockTokenInstruction::SetFreeToken { mint_address, is_free } => spec_set_free_token(
            program_id,
            acc,
            mint_address@,
            is_free,
        ),
        LockTokenInstruction::TransferOwnership {  } => spec_transfer_ownership(acc),
    }
}

proof fn lemma_dispatch_by_view(
    program_id: Seq<u8>,
    acc: Seq<LedgerAccount>,
    a: LockTokenInstruction,
    b: LockTokenInstruction,
    clock: Result<i64, LockTokenError>,
)
    requires
        a@ == b@,
    ensures
        spec_dispatch(program_id, acc, a, clock) == spec_dispatch(program_id, acc, b, clock),
{
    match (a, b) {
        (LockTokenInstruction::Init { seeds: s1, .. }, LockTokenInstruction::Init { seeds: s2, .. }) => {
            assert(s1 =~= s2);
        },
        (
            LockTokenInstruction::Create { seeds: s1, mint_address: m1, destination_token_address: d1, .. },
            LockTokenInstruction::Create { seeds: s2, mint_address: m2, destination_token_address: d2, .. },
        ) => {
            assert(s1 =~= s2);
            assert(m1.bytes =~= m2.bytes);
            assert(d1.bytes =~= d2.bytes);
        },
        (LockTokenInstruction::Unlock { seeds: s1 }, LockTokenInstruction::Unlock { seeds: s2 }) => {
            assert(s1 =~= s2);
        },
        (LockTokenInstruction::TransferLocks { seeds: s1 }, LockTokenInstruction::TransferLocks { seeds: s2 }) => {
            assert(s1 =~= s2);
        },
        (
            LockTokenInstruction::ExtendLockDuration { seeds: s1, .. },
            LockTokenInstruction::ExtendLockDuration { seeds: s2, .. },
        ) => {
            assert(s1 =~= s2);
        },
        _ => {},
    }
}

fn check_destination_owner(accounts: &[LedgerAccount], destination: &Address) -> (r: Result<(), LockTokenError>)
    requires
        accounts@.len() >= 4,
    ensures
        forall|d: Seq<u8>| d.len() >= 32 && d.subrange(0, 32) == destination@ ==> r == destination_owner_gate(accounts@, d),
{
    if *destination != accounts[2].key {
        return Err(LockTokenError::InvalidArgument);
    }
    if !accounts[3].is_signer {
        return Err(LockTokenError::InvalidArgument);
    }
    let t = read_token_account(&accounts[2])?;
    if t.owner != accounts[3].key {
        return Err(LockTokenError::InvalidArgument);
    }
    Ok(())
}

fn read_stored_global(state: &LedgerAccount, exact: bool) -> (r: Result<LockGlobalState, LockTokenError>)
    ensures
        match r {
            Ok(g) => {
                &&& stored_global_gate(state.data@, exact) is Ok
                &&& g.read_from(state.data@)
                &&& g.is_initialized
            },
            Err(e) => stored_global_gate(state.data@, exact) == Err::<(), LockTokenError>(e),
        },
{
    let data = state.data.as_slice();
    if data.len() < LockGlobalState::LEN {
        return Err(LockTokenError::InvalidAccountData);
    }
    if data[LockGlobalState::LEN - 1] != 1 {
        return Err(LockTokenError::InvalidArgument);
    }
    if exact {
        LockGlobalState::unpack(data)
    } else {
        let head = slice_subrange(data, 0, LockGlobalState::LEN);
        assert(head@.subrange(0, 32) =~= data@.subrange(0, 32));
        assert(head@.subrange(32, 64) =~= data@.subrange(32, 64));
        assert(head@.subrange(64, 72) =~= data@.subrange(64, 72));
        assert(head@.subrange(72, 104) =~= data@.subrange(72, 104));
        LockGlobalState::unpack(head)
    }
}

proof fn lemma_unlock_stores_swept(d: Seq<u8>, now: u64)
    requires
        d.len() >= 65,
    ensures
        entries_of(splice(d, 65, lock_schedules_bytes(swept(entries_of(d), now))))
            == swept(entries_of(d), now),
{
    let tail = d.subrange(65, d.len() as int);
    let s = swept(entries_of(d), now);
    let d2 = splice(d, 65, lock_schedules_bytes(s));
    crate::state::lemma_lock_schedules_bytes(s);
    assert(16 * s.len() <= tail.len()) by (nonlinear_arith)
        requires
            s.len() == tail.len() / 16,
    ;
    crate::state::lemma_lock_schedules_read_back(tail, s);
    assert(d2.subrange(65, d2.len() as int) =~= splice(tail, 0, lock_schedules_bytes(s)));
    let e2 = entries_of(d2);
    assert(e2 =~= e2.subrange(0, s.len() as int));
}

proof fn lemma_sum_nonneg(s: Seq<u64>)
    ensures
        sum_u64(s) >= 0,
    decreases s.len(),
{
    if s.len() > 0 {
        lemma_sum_nonneg(s.drop_last());
    }
}

proof fn lemma_sum_covers(s: Seq<u64>, k: int)
    requires
        0 <= k < s.len(),
    ensures
        sum_u64(s) >= s[k],
{
    lemma_sum_step(s, k);
    lemma_sum_nonneg(s.subrange(0, k));
    lemma_sum_prefix_le(s, k + 1);
}

/// Unlocking again at the same clock time, once the first unlock's write is stored,
/// releases nothing and is refused, whatever the other accounts then hold.
pub proof fn lemma_unlock_twice_rejected(
    program_id: Seq<u8>,
    acc: Seq<LedgerAccount>,
    seeds: [u8; 32],
    clock: i64,
    after: Seq<LedgerAccount>,
)
    requires
        spec_unlock(program_id, acc, seeds, Ok(clock)) is Ok,
        after.len() == acc.len(),
        after[3].data@ == spec_unlock(program_id, acc, seeds, Ok(clock))->Ok_0.writes[0].1,
    ensures
        spec_unlock(program_id, after, seeds, Ok(clock)) is Err,
{
    let now = #[verifier::truncate] (clock as u64);
    lemma_unlock_stores_swept(acc[3].data@, now);
    let m = matured_amounts(entries_of(after[3].data@), now);
    assert forall|i: int| 0 <= i < m.len() implies m[i] == 0 by {}
    lemma_sum_zero(m);
}

/// An accepted unlock at clock time `clock` releases every entry whose release time is at
/// most that time, the boundary included: the stored entry keeps its release time and holds
/// nothing afterwards, and the amount transferred covers what it held.
pub proof fn lemma_unlock_releases_due_entries(
    program_id: Seq<u8>,
    acc: Seq<LedgerAccount>,
    seeds: [u8; 32],
    clock: i64,
    k: int,
)
    requires
        spec_unlock(program_id, acc, seeds, Ok(clock)) is Ok,
        0 <= k < entries_of(acc[3].data@).len(),
        entries_of(acc[3].data@)[k].release_time <= #[verifier::truncate] (clock as u64),
    ensures
        ({
            let o = spec_unlock(program_id, acc, seeds, Ok(clock))->Ok_0;
            let before = entries_of(acc[3].data@)[k];
            &&& entries_of(o.writes[0].1)[k] == (LockSchedule {
                release_time: before.release_time,
                amount: 0,
            })
            &&& o.calls[0] matches HostCall::TransferTokens { amount, .. } && amount
                >= before.amount
        }),
{
    let now = #[verifier::truncate] (clock as u64);
    let entries = entries_of(acc[3].data@);
    lemma_unlock_stores_swept(acc[3].data@, now);
    let m = matured_amounts(entries, now);
    lemma_sum_covers(m, k);
}

/// An extension never makes a release time earlier: asking for a time before the entry's
/// current one is refused, and any two times at or after it are accepted or refused alike.
pub proof fn lemma_extend_never_shortens(
    program_id: Seq<u8>,
    acc: Seq<LedgerAccount>,
    seeds: [u8; 32],
    index: u32,
    earlier: u64,
    later: u64,
    other: u64,
)
    ensures
        earlier < u64_at(acc[1].data@, entry_offset(index)) ==> spec_extend_lock_duration(
            program_id,
            acc,
            seeds,
            index,
            earlier,
        ) is Err,
        later >= u64_at(acc[1].data@, entry_offset(index)) && other >= u64_at(
            acc[1].data@,
            entry_offset(index),
        ) ==> (spec_extend_lock_duration(program_id, acc, seeds, index, later) is Ok
            <==> spec_extend_lock_duration(program_id, acc, seeds, index, other) is Ok),
{
}

/// The lock program's handlers, one per operation.
pub struct Processor {}

impl Processor {
    /// Writes the header and schedule into an allocated, uninitialized locking account,
    /// charges the onboarding fee, and moves the schedule's total from the source token
    /// account into the locking token account.
    pub fn process_create(
        program_id: &Address,
        accounts: &[LedgerAccount],
        seeds: [u8; 32],
        mint_address: &Address,
        destination_token_address: &Address,
        schedules: Vec<Schedule>,
    ) -> (r: Result<Outcome, LockTokenError>)
        ensures
            result_view(r) == spec_create(
                program_id@,
                accounts@,
                seeds,
                *mint_address,
                *destination_token_address,
                schedules@,
            ),
            r matches Ok(o) ==> {
                &&& sum_u64(schedule_amounts(schedules@)) <= token_amount(accounts@[5].data@)
                &&& o@.calls[1] == HostCall::TransferTokens {
                    token_program: 0,
                    source: 5,
                    destination: 3,
                    authority: 4,
                    amount: sum_u64(schedule_amounts(schedules@)) as u64,
                    signed_by: Authority::Signature,
                }
            },
            !(flag_of(accounts@[6].data@[33]) && flag_of(accounts@[6].data@[32])) ==> (r matches Ok(o)
                ==> o@.calls[0] == (HostCall::TransferLamports { from: 4, to: 7, lamports: 0 })),
            sum_u64(schedule_amounts(schedules@)) > u64::MAX ==> r is Err,
    {
        if accounts.len() < 8 {
            return Err(LockTokenError::NotEnoughAccountKeys);
        }
        let locking = &accounts[2];
        check_global_state(program_id, &accounts[1])?;
        let locking_key = derive(seeds.as_slice(), program_id)?;
        if locking_key != locking.key {
            return Err(LockTokenError::InvalidArgument);
        }
        if !accounts[4].is_signer {
            return Err(LockTokenError::InvalidArgument);
        }
        if locking.owner != *program_id {
            return Err(LockTokenError::InvalidArgument);
        }
        let data = locking.data.as_slice();
        if data.len() < LockScheduleHeader::LEN {
            return Err(LockTokenError::InvalidAccountData);
        }
        if data[LockScheduleHeader::LEN - 1] == 1 {
            return Err(LockTokenError::InvalidArgument);
        }
        let locking_token = read_token_account(&accounts[3])?;
        if locking_token.owner != locking_key {
            return Err(LockTokenError::InvalidArgument);
        }
        if locking_token.has_delegate {
            return Err(LockTokenError::InvalidAccountData);
        }
        if locking_token.has_close_authority {
            return Err(LockTokenError::InvalidAccountData);
        }
        let token_state_key = derive(mint_address.bytes.as_slice(), program_id)?;
        if token_state_key != accounts[6].key {
            return Err(LockTokenError::InvalidArgument);
        }
        let fee_record = accounts[6].data.as_slice();
        if fee_record.len() < TokenState::LEN {
            return Err(LockTokenError::InvalidAccountData);
        }
        let mut token_state = TokenState {
            mint_address: *mint_address,
            is_free: false,
            is_initialized: false,
        };
        if fee_record[TokenState::LEN - 1] == 1 {
            let head = slice_subrange(fee_record, 0, TokenState::LEN);
            assert(head@.subrange(0, 32) =~= fee_record@.subrange(0, 32));
            token_state = TokenState::unpack(head)?;
            if token_state.mint_address != *mint_address {
                return Err(LockTokenError::InvalidArgument);
            }
        }
        let fee = token_state.estimate_fees_in_sol()?;
        if (data.len() as u128) != (LockScheduleHeader::LEN as u128) + (schedules.len() as u128)
            * 16 {
            return Err(LockTokenError::InvalidAccountData);
        }
        let total = schedule_total(&schedules)?;
        let header = LockScheduleHeader {
            destination_address: *destination_token_address,
            mint_address: *mint_address,
            is_initialized: true,
        };
        let mut new_data = header.pack();
        pack_entries(&schedules, &mut new_data);
        let source = read_token_account(&accounts[5])?;
        if source.amount < total {
            return Err(LockTokenError::InsufficientFunds);
        }
        let calls = vec![
            HostCall::TransferLamports { from: 4, to: 7, lamports: fee },
            HostCall::TransferTokens {
                token_program: 0,
                source: 5,
                destination: 3,
                authority: 4,
                amount: total,
                signed_by: Authority::Signature,
            },
        ];
        let r = outcome(write_one(2, new_data), calls);
        assert(r@.writes =~= seq![(2usize, r.writes@[0].data@)]);
        assert(r@.calls =~= spec_create(program_id@, accounts@, seeds, *mint_address, *destination_token_address, schedules@)->Ok_0.calls);
        Ok(r)
    }

    /// Releases every entry whose release time has been reached at the host's clock time
    /// to the destination, and stores those entries with nothing left in them.
    pub fn process_unlock(
        program_id: &Address,
        accounts: &[LedgerAccount],
        seeds: [u8; 32],
        clock: Result<i64, LockTokenError>,
    ) -> (r: Result<Outcome, LockTokenError>)
        ensures
            result_view(r) == spec_unlock(program_id@, accounts@, seeds, clock),
    {
        if accounts.len() < 6 {
            return Err(LockTokenError::NotEnoughAccountKeys);
        }
        let locking = &accounts[3];
        check_global_state(program_id, &accounts[2])?;
        let locking_key = derive(seeds.as_slice(), program_id)?;
        if locking_key != locking.key {
            return Err(LockTokenError::InvalidArgument);
        }
        if accounts[0].key != token_program_id() {
            return Err(LockTokenError::InvalidArgument);
        }
        let data = locking.data.as_slice();
        let n = data.len();
        if n < LockScheduleHeader::LEN {
            return Err(LockTokenError::InvalidAccountData);
        }
        let head = slice_subrange(data, 0, LockScheduleHeader::LEN);
        assert(head@.subrange(0, 32) =~= data@.subrange(0, 32));
        let header = LockScheduleHeader::unpack(head)?;
        if header.destination_address != accounts[5].key {
            return Err(LockTokenError::InvalidArgument);
        }
        let locking_token = read_token_account(&accounts[4])?;
        if locking_token.owner != locking_key {
            return Err(LockTokenError::InvalidArgument);
        }
        let now = clock?;
        let tail = slice_subrange(data, LockScheduleHeader::LEN, n);
        let mut entries = unpack_schedules(tail)?;
        let ghost before = entries@;
        let now_secs = #[verifier::truncate] (now as u64);
        let total = release_matured(&mut entries, now_secs)?;
        if total == 0 {
            return Err(LockTokenError::InvalidArgument);
        }
        let bytes = crate::state::schedules_to_bytes(&entries);
        proof {
            crate::state::lemma_lock_schedules_bytes(entries@);
            assert(16 * before.len() <= tail@.len()) by (nonlinear_arith)
                requires before.len() == tail@.len() / 16;
        }
        let mut new_data = locking.data.clone();
        write_at(&mut new_data, LockScheduleHeader::LEN, bytes.as_slice());
        let calls = vec![
            HostCall::TransferTokens {
                token_program: 0,
                source: 4,
                destination: 5,
                authority: 3,
                amount: total,
                signed_by: Authority::Derivation { seeds },
            },
        ];
        let r = outcome(write_one(3, new_data), calls);
        assert(r@.writes =~= seq![(3usize, r.writes@[0].data@)]);
        assert(r@.calls =~= spec_unlock(program_id@, accounts@, seeds, clock)->Ok_0.calls);
        Ok(r)
    }

    /// Allocates the locking account that `seeds` derives, sized for the header and
    /// `schedules` entries and owned by the program.
    pub fn process_init(
        program_id: &Address,
        accounts: &[LedgerAccount],
        seeds: [u8; 32],
        schedules: u32,
    ) -> (r: Result<Outcome, LockTokenError>)
        ensures
            result_view(r) == spec_init(program_id@, accounts@, seeds, schedules),
    {
        if accounts.len() < 5 {
            return Err(LockTokenError::NotEnoughAccountKeys);
        }
        check_global_state(program_id, &accounts[1])?;
        let locking_key = derive(seeds.as_slice(), program_id)?;
        if locking_key != accounts[4].key {
            return Err(LockTokenError::InvalidArgument);
        }
        let space = (schedules as u64) * (LockSchedule::LEN as u64) + (LockScheduleHeader::LEN as u64);
        let calls = vec![
            HostCall::CreateAccount {
                system_program: 0,
                payer: 3,
                new_account: 4,
                space,
                seed: AccountSeed::Locking { seeds },
            },
        ];
        let r = outcome(Vec::new(), calls);
        assert(r@.writes =~= seq![]);
        assert(r@.calls =~= spec_init(program_id@, accounts@, seeds, schedules)->Ok_0.calls);
        Ok(r)
    }

    /// Points the locking account at a new destination, on the signature of the owner of
    /// its current destination.
    pub fn process_transfer_locks(
        program_id: &Address,
        accounts: &[LedgerAccount],
        seeds: [u8; 32],
    ) -> (r: Result<Outcome, LockTokenError>)
        ensures
            result_view(r) == spec_transfer_locks(program_id@, accounts@, seeds),
            r is Ok ==> accounts@[3].is_signer && token_owner(accounts@[2].data@)
                == accounts@[3].key@ && accounts@[1].data@.subrange(0, 32) == accounts@[2].key@,
    {
        if accounts.len() < 5 {
            return Err(LockTokenError::NotEnoughAccountKeys);
        }
        let locking = &accounts[1];
        check_global_state(program_id, &accounts[0])?;
        let data = locking.data.as_slice();
        if data.len() < LockScheduleHeader::LEN {
            return Err(LockTokenError::InvalidAccountData);
        }
        let locking_key = derive(seeds.as_slice(), program_id)?;
        if locking_key != locking.key {
            return Err(LockTokenError::InvalidArgument);
        }
        let head = slice_subrange(data, 0, LockScheduleHeader::LEN);
        assert(head@.subrange(0, 32) =~= data@.subrange(0, 32));
        let header = LockScheduleHeader::unpack(head)?;
        check_destination_owner(accounts, &header.destination_address)?;
        let mut new_data = locking.data.clone();
        write_at(&mut new_data, 0, accounts[4].key.bytes.as_slice());
        let r = outcome(write_one(1, new_data), Vec::new());
        assert(r@.writes =~= seq![(1usize, r.writes@[0].data@)]);
        assert(r@.calls =~= seq![]);
        Ok(r)
    }

    /// Moves the release time of entry `index` to `release_time`, which may not be earlier
    /// than the entry's current release time, on the signature of the owner of the
    /// locking account's current destination.
    pub fn process_extend_lock_duration(
        program_id: &Address,
        accounts: &[LedgerAccount],
        seeds: [u8; 32],
        index: u32,
        release_time: u64,
    ) -> (r: Result<Outcome, LockTokenError>)
        ensures
            result_view(r) == spec_extend_lock_duration(
                program_id@,
                accounts@,
                seeds,
                index,
                release_time,
            ),
            r is Ok ==> u64_at(accounts@[1].data@, entry_offset(index)) <= release_time,
    {
        if accounts.len() < 4 {
            return Err(LockTokenError::NotEnoughAccountKeys);
        }
        let locking = &accounts[1];
        check_global_state(program_id, &accounts[0])?;
        let data = locking.data.as_slice();
        let at = (LockScheduleHeader::LEN as u64) + (LockSchedule::LEN as u64) * (index as u64);
        if (data.len() as u64) < at + (LockSchedule::LEN as u64) {
            return Err(LockTokenError::InvalidAccountData);
        }
        let at = at as usize;
        let locking_key = derive(seeds.as_slice(), program_id)?;
        if locking_key != locking.key {
            return Err(LockTokenError::InvalidArgument);
        }
        let cell = slice_subrange(data, at, at + LockSchedule::LEN);
        assert(cell@.subrange(0, 8) =~= data@.subrange(at as int, at + 8));
        let entry = LockSchedule::unpack_from_slice(cell)?;
        if entry.release_time > release_time {
            return Err(LockTokenError::InvalidArgument);
        }
        let header = LockScheduleHeader::unpack_from_slice(data)?;
        check_destination_owner(accounts, &header.destination_address)?;
        let mut new_data = locking.data.clone();
        write_at(&mut new_data, at, u64_to_le_bytes(release_time).as_slice());
        let r = outcome(write_one(1, new_data), Vec::new());
        assert(r@.writes =~= seq![(1usize, r.writes@[0].data@)]);
        assert(r@.calls =~= seq![]);
        Ok(r)
    }

    /// Sets the paused flag of the global state.
    pub fn process_pause_contract(
        program_id: &Address,
        accounts: &[LedgerAccount],
        is_pause: bool,
    ) -> (r: Result<Outcome, LockTokenError>)
        ensures
            result_view(r) == spec_pause_contract(program_id@, accounts@, is_pause),
    {
        if accounts.len() < 3 {
            return Err(LockTokenError::NotEnoughAccountKeys);
        }
        check_admin(program_id, &accounts[0], &accounts[1], &accounts[2], true)?;
        let mut g = read_stored_global(&accounts[2], false)?;
        g.is_paused = is_pause;
        let mut new_data = accounts[2].data.clone();
        g.pack_into_slice(&mut new_data);
        let r = outcome(write_one(2, new_data), Vec::new());
        assert(r@.writes =~= seq![(2usize, r.writes@[0].data@)]);
        assert(r@.calls =~= seq![]);
        Ok(r)
    }

    /// Sets the fee parameters of the global state, creating the global state first when it
    /// is missing or not initialized.
    pub fn process_set_fee_params(
        program_id: &Address,
        accounts: &[LedgerAccount],
        price_estimator: &Address,
        usd_token_address: &Address,
        fees_in_usd: u64,
        company_wallet: &Address,
    ) -> (r: Result<Outcome, LockTokenError>)
        ensures
            result_view(r) == spec_set_fee_params(
                program_id@,
                accounts@,
                price_estimator@,
                usd_token_address@,
                fees_in_usd,
                company_wallet@,
            ),
    {
        if accounts.len() < 5 {
            return Err(LockTokenError::NotEnoughAccountKeys);
        }
        let state = &accounts[4];
        let data = state.data.as_slice();
        let absent = data.len() < LockGlobalState::LEN || data[LockGlobalState::LEN - 1] != 1;
        check_admin(program_id, &accounts[2], &accounts[3], state, !absent)?;
        let mut calls: Vec<HostCall> = Vec::new();
        let mut g = if absent {
            calls.push(
                HostCall::CreateAccount {
                    system_program: 0,
                    payer: 2,
                    new_account: 4,
                    space: LockGlobalState::LEN as u64,
                    seed: AccountSeed::GlobalState,
                },
            );
            LockGlobalState {
                price_estimator: *price_estimator,
                usd_token_address: *usd_token_address,
                fees_in_usd,
                company_wallet: *company_wallet,
                is_paused: false,
                is_initialized: true,
            }
        } else {
            LockGlobalState::unpack(data)?
        };
        g.price_estimator = *price_estimator;
        g.usd_token_address = *usd_token_address;
        g.fees_in_usd = fees_in_usd;
        g.company_wallet = *company_wallet;
        g.is_initialized = true;
        let mut new_data: Vec<u8> = Vec::new();
        let mut i: usize = 0;
        while i < LockGlobalState::LEN
            invariant
                i <= 106,
                new_data@.len() == i,
            decreases 106 - i,
        {
            new_data.push(0);
            i = i + 1;
        }
        g.pack_into_slice(&mut new_data);
        proof {
            vstd::bytes::lemma_auto_spec_u64_to_from_le_bytes();
        }
        assert(new_data@ =~= g.spec_pack());
        let r = outcome(write_one(4, new_data), calls);
        assert(r@.writes =~= seq![(4usize, r.writes@[0].data@)]);
        assert(r@.calls =~= spec_set_fee_params(
            program_id@,
            accounts@,
            price_estimator@,
            usd_token_address@,
            fees_in_usd,
            company_wallet@,
        )->Ok_0.calls);
        Ok(r)
    }

    /// Sets the fee in USD of the global state.
    pub fn process_set_fees_in_usd(
        program_id: &Address,
        accounts: &[LedgerAccount],
        fees_in_usd: u64,
    ) -> (r: Result<Outcome, LockTokenError>)
        ensures
            result_view(r) == spec_set_fees_in_usd(program_id@, accounts@, fees_in_usd),
    {
        if accounts.len() < 3 {
            return Err(LockTokenError::NotEnoughAccountKeys);
        }
        check_admin(program_id, &accounts[0], &accounts[1], &accounts[2], true)?;
        let mut g = read_stored_global(&accounts[2], true)?;
        g.fees_in_usd = fees_in_usd;
        let mut new_data = accounts[2].data.clone();
        g.pack_into_slice(&mut new_data);
        proof {
            vstd::bytes::lemma_auto_spec_u64_to_from_le_bytes();
        }
        assert(new_data@ =~= g.spec_pack());
        let r = outcome(write_one(2, new_data), Vec::new());
        assert(r@.writes =~= seq![(2usize, r.writes@[0].data@)]);
        assert(r@.calls =~= seq![]);
        Ok(r)
    }

    /// Sets the fee-receiving wallet of the global state.
    pub fn process_set_company_wallet(
        program_id: &Address,
        accounts: &[LedgerAccount],
        company_wallet: &Address,
    ) -> (r: Result<Outcome, LockTokenError>)
        ensures
            result_view(r) == spec_set_company_wallet(program_id@, accounts@, company_wallet@),
    {
        if accounts.len() < 3 {
            return Err(LockTokenError::NotEnoughAccountKeys);
        }
        check_admin(program_id, &accounts[0], &accounts[1], &accounts[2], true)?;
        let mut g = read_stored_global(&accounts[2], true)?;
        g.company_wallet = *company_wallet;
        let mut new_data = accounts[2].data.clone();
        g.pack_into_slice(&mut new_data);
        proof {
            vstd::bytes::lemma_auto_spec_u64_to_from_le_bytes();
        }
        assert(new_data@ =~= g.spec_pack());
        let r = outcome(write_one(2, new_data), Vec::new());
        assert(r@.writes =~= seq![(2usize, r.writes@[0].data@)]);
        assert(r@.calls =~= seq![]);
        Ok(r)
    }

    /// Sets the fee flag of an initialized token fee record.
    pub fn process_set_free_token(
        program_id: &Address,
        accounts: &[LedgerAccount],
        mint_address: &Address,
        is_free: bool,
    ) -> (r: Result<Outcome, LockTokenError>)
        ensures
            result_view(r) == spec_set_free_token(program_id@, accounts@, mint_address@, is_free),
    {
        if accounts.len() < 4 {
            return Err(LockTokenError::NotEnoughAccountKeys);
        }
        check_admin(program_id, &accounts[0], &accounts[1], &accounts[2], true)?;
        let g = read_stored_global(&accounts[2], false)?;
        if g.is_paused {
            return Err(LockTokenError::InvalidArgument);
        }
        let token_state_key = derive(mint_address.bytes.as_slice(), program_id)?;
        if token_state_key != accounts[3].key {
            return Err(LockTokenError::InvalidArgument);
        }
        let mut t = TokenState::unpack(accounts[3].data.as_slice())?;
        if t.mint_address != *mint_address {
            return Err(LockTokenError::InvalidArgument);
        }
        t.is_free = is_free;
        let mut new_data = accounts[3].data.clone();
        t.pack_into_slice(&mut new_data);
        assert(t.mint_address@.len() == 32);
        assert(new_data@ =~= t.spec_pack());
        let r = outcome(write_one(3, new_data), Vec::new());
        assert(r@.writes =~= seq![(3usize, r.writes@[0].data@)]);
        assert(r@.calls =~= seq![]);
        Ok(r)
    }

    /// Moves one credential token from the old administrator's token account to the new
    /// administrator's, on the old administrator's signature.
    pub fn process_transfer_ownership(accounts: &[LedgerAccount]) -> (r: Result<Outcome, LockTokenError>)
        ensures
            result_view(r) == spec_transfer_ownership(accounts@),
    {
        if accounts.len() < 5 {
            return Err(LockTokenError::NotEnoughAccountKeys);
        }
        if !accounts[1].is_signer {
            return Err(LockTokenError::InvalidArgument);
        }
        let old_token = read_token_account(&accounts[2])?;
        if old_token.owner != accounts[1].key {
            return Err(LockTokenError::InvalidArgument);
        }
        if old_token.amount == 0 {
            return Err(LockTokenError::InvalidArgument);
        }
        let new_token = read_token_account(&accounts[4])?;
        if new_token.owner != accounts[3].key {
            return Err(LockTokenError::InvalidArgument);
        }
        let calls = vec![
            HostCall::TransferTokens {
                token_program: 0,
                source: 2,
                destination: 4,
                authority: 1,
                amount: 1,
                signed_by: Authority::Signature,
            },
        ];
        let r = outcome(Vec::new(), calls);
        assert(r@.writes =~= seq![]);
        assert(r@.calls =~= spec_transfer_ownership(accounts@)->Ok_0.calls);
        Ok(r)
    }

    /// Decodes `instruction_data` and runs the handler of its operation. `clock` is the
    /// host's clock time as read for this call; only an unlock consults it.
    pub fn process_instruction(
        program_id: &Address,
        accounts: &[LedgerAccount],
        instruction_data: &[u8],
        clock: Result<i64, LockTokenError>,
    ) -> (r: Result<Outcome, LockTokenError>)
        ensures
            spec_decode(instruction_data@) is None ==> r == Err::<Outcome, LockTokenError>(
                LockTokenError::InvalidInstruction,
            ),
            forall|ins: LockTokenInstruction|
                spec_decode(instruction_data@) == Some(#[trigger] ins@) ==> result_view(r)
                    == spec_dispatch(program_id@, accounts@, ins, clock),
    {
        let instruction = LockTokenInstruction::unpack(instruction_data)?;
        let ghost decoded = instruction;
        let r = match instruction {
            LockTokenInstruction::Init { seeds, number_of_schedules } => Self::process_init(
                program_id,
                accounts,
                seeds,
                number_of_schedules,
            ),
            LockTokenInstruction::Create {
                seeds,
                mint_address,
                destination_token_address,
                schedules,
            } => Self::process_create(
                program_id,
                accounts,
                seeds,
                &mint_address,
                &destination_token_address,
                schedules,
            ),
            LockTokenInstruction::Unlock { seeds } => Self::process_unlock(
                program_id,
                accounts,
                seeds,
                clock,
            ),
            LockTokenInstruction::TransferLocks { seeds } => Self::process_transfer_locks(
                program_id,
                accounts,
                seeds,
            ),
            LockTokenInstruction::ExtendLockDuration { seeds, index, release_time } =>
                Self::process_extend_lock_duration(program_id, accounts, seeds, index, release_time),
            LockTokenInstruction::PauseContract { is_pause } => Self::process_pause_contract(
                program_id,
                accounts,
                is_pause,
            ),
            LockTokenInstruction::SetFeeParams {
                price_estimator,
                usd_token_address,
                fees_in_usd,
                company_wallet,
            } => Self::process_set_fee_params(
                program_id,
                accounts,
                &price_estimator,
                &usd_token_address,
                fees_in_usd,
                &company_wallet,
            ),
            LockTokenInstruction::SetFeesInUSD { fees_in_usd } => Self::process_set_fees_in_usd(
                program_id,
                accounts,
                fees_in_usd,
            ),
            LockTokenInstruction::SetCompanyWallet { company_wallet } =>
                Self::process_set_company_wallet(program_id, accounts, &company_wallet),
            LockTokenInstruction::SetFreeToken { mint_address, is_free } =>
                Self::process_set_free_token(program_id, accounts, &mint_address, is_free),
            LockTokenInstruction::TransferOwnership {  } => Self::process_transfer_ownership(
                accounts,
            ),
        };
        assert(result_view(r) == spec_dispatch(program_id@, accounts@, decoded, clock));
        assert forall|ins: LockTokenInstruction|
            spec_decode(instruction_data@) == Some(#[trigger] ins@) implies result_view(r)
                == spec_dispatch(program_id@, accounts@, ins, clock) by {
            lemma_dispatch_by_view(program_id@, accounts@, ins, decoded, clock);
        }
        r
    }
}

} // verus!
