use crate::address::Address;
use crate::bytes::{flag_byte, flag_of, push_all, read_array32, read_u64, splice, u64_at, write_at};
use crate::error::LockTokenError;
use vstd::bytes::*;
use vstd::prelude::*;

verus! {

/// Seed of the global state's derived address, and the text of the credential mint's address.
pub const OWNER_TOKEN_MINT_ADDRESS: &'static str = "Token address";

/// The singleton configuration of the program.
#[derive(Clone, Copy, Debug)]
pub struct LockGlobalState {
    pub price_estimator: Address,
    pub usd_token_address: Address,
    pub fees_in_usd: u64,
    pub company_wallet: Address,
    pub is_paused: bool,
    pub is_initialized: bool,
}

/// One stored schedule entry: the amount becomes releasable at `release_time`.
#[derive(Clone, Copy, Debug, PartialEq, Eq, Structural)]
pub struct LockSchedule {
    pub release_time: u64,
    pub amount: u64,
}

/// The header that precedes the schedule entries of a locking account.
#[derive(Clone, Copy, Debug)]
pub struct LockScheduleHeader {
    pub destination_address: Address,
    pub mint_address: Address,
    pub is_initialized: bool,
}

/// The fee record of one token mint.
#[derive(Clone, Copy, Debug)]
pub struct TokenState {
    pub mint_address: Address,
    pub is_free: bool,
    pub is_initialized: bool,
}

// ---------------------------------------------------------------- header

impl LockScheduleHeader {
    pub const LEN: usize = 65;

    pub open spec fn spec_pack(&self) -> Seq<u8> {
        self.destination_address@ + self.mint_address@ + seq![flag_byte(self.is_initialized)]
    }

    /// The header holds the fields stored at the start of `b`.
    pub open spec fn read_from(&self, b: Seq<u8>) -> bool {
        &&& self.destination_address@ == b.subrange(0, 32)
        &&& self.mint_address@ == b.subrange(32, 64)
        &&& self.is_initialized == flag_of(b[64])
    }

    pub fn is_initialized(&self) -> (r: bool)
        ensures
            r == self.is_initialized,
    {
        self.is_initialized
    }

    /// The `LEN` bytes of the header.
    pub fn pack(&self) -> (r: Vec<u8>)
        ensures
            r@ == self.spec_pack(),
    {
        let mut b: Vec<u8> = Vec::new();
        push_all(&mut b, self.destination_address.bytes.as_slice());
        push_all(&mut b, self.mint_address.bytes.as_slice());
        b.push(if self.is_initialized { 1 } else { 0 });
        assert(b@ =~= self.spec_pack());
        b
    }

    /// Writes the header over the first `LEN` bytes of `dst`.
    pub fn pack_into_slice(&self, dst: &mut Vec<u8>)
        requires
            old(dst)@.len() >= 65,
        ensures
            final(dst)@ == splice(old(dst)@, 0, self.spec_pack()),
    {
        let b = self.pack();
        write_at(dst, 0, b.as_slice());
    }

    /// Reads a header from the start of `src`; fails when `src` is shorter than `LEN`.
    pub fn unpack_from_slice(src: &[u8]) -> (r: Result<LockScheduleHeader, LockTokenError>)
        ensures
            match r {
                Ok(h) => src@.len() >= 65 && h.read_from(src@),
                Err(e) => src@.len() < 65 && e == LockTokenError::InvalidAccountData,
            },
    {
        if src.len() < Self::LEN {
            return Err(LockTokenError::InvalidAccountData);
        }
        Ok(LockScheduleHeader {
            destination_address: Address { bytes: read_array32(src, 0) },
            mint_address: Address { bytes: read_array32(src, 32) },
            is_initialized: src[64] == 1,
        })
    }

    /// Reads an initialized header from a buffer of exactly `LEN` bytes.
    pub fn unpack(src: &[u8]) -> (r: Result<LockScheduleHeader, LockTokenError>)
        ensures
            src@.len() != 65 ==> r == Err::<LockScheduleHeader, LockTokenError>(
                LockTokenError::InvalidAccountData,
            ),
            src@.len() == 65 && !flag_of(src@[64]) ==> r == Err::<
                LockScheduleHeader,
                LockTokenError,
            >(LockTokenError::UninitializedAccount),
            r matches Ok(h) ==> src@.len() == 65 && h.is_initialized && h.read_from(src@),
            src@.len() == 65 && flag_of(src@[64]) ==> r is Ok,
    {
        if src.len() != Self::LEN {
            return Err(LockTokenError::InvalidAccountData);
        }
        let h = Self::unpack_from_slice(src)?;
        if !h.is_initialized() {
            return Err(LockTokenError::UninitializedAccount);
        }
        Ok(h)
    }
}

// ---------------------------------------------------------------- schedule entries

/// The entry stored in `b` from offset `at`.
pub open spec fn lock_schedule_at(b: Seq<u8>, at: int) -> LockSchedule {
    LockSchedule { release_time: u64_at(b, at), amount: u64_at(b, at + 8) }
}

/// The whole entries stored in `b`, one every sixteen bytes; a trailing remainder is dropped.
pub open spec fn lock_schedules_of(b: Seq<u8>) -> Seq<LockSchedule> {
    Seq::new((b.len() / 16) as nat, |k: int| lock_schedule_at(b, 16 * k))
}

pub open spec fn lock_schedule_bytes(s: LockSchedule) -> Seq<u8> {
    spec_u64_to_le_bytes(s.release_time) + spec_u64_to_le_bytes(s.amount)
}

/// The entries of `s` stored one after the other.
pub open spec fn lock_schedules_bytes(s: Seq<LockSchedule>) -> Seq<u8>
    decreases s.len(),
{
    if s.len() == 0 {
        Seq::empty()
    } else {
        lock_schedules_bytes(s.drop_last()) + lock_schedule_bytes(s.last())
    }
}

impl LockSchedule {
    pub const LEN: usize = 16;

    /// An entry counts as initialized while it still holds tokens.
    pub fn is_initialized(&self) -> (r: bool)
        ensures
            r == (self.amount > 0),
    {
        self.amount > 0
    }

    /// Writes the entry over the first `LEN` bytes of `dst`.
    pub fn pack_into_slice(&self, dst: &mut Vec<u8>)
        requires
            old(dst)@.len() >= 16,
        ensures
            final(dst)@ == splice(old(dst)@, 0, lock_schedule_bytes(*self)),
    {
        let mut b: Vec<u8> = Vec::new();
        push_all(&mut b, u64_to_le_bytes(self.release_time).as_slice());
        push_all(&mut b, u64_to_le_bytes(self.amount).as_slice());
        write_at(dst, 0, b.as_slice());
    }

    /// Reads an entry from the start of `src`; fails when `src` is shorter than `LEN`.
    pub fn unpack_from_slice(src: &[u8]) -> (r: Result<LockSchedule, LockTokenError>)
        ensures
            match r {
                Ok(s) => src@.len() >= 16 && s == lock_schedule_at(src@, 0),
                Err(e) => src@.len() < 16 && e == LockTokenError::InvalidAccountData,
            },
    {
        if src.len() < Self::LEN {
            return Err(LockTokenError::InvalidAccountData);
        }
        Ok(LockSchedule { release_time: read_u64(src, 0), amount: read_u64(src, 8) })
    }

    /// Reads an entry from a buffer of exactly `LEN` bytes; an entry that holds no tokens
    /// is refused as uninitialized.
    pub fn unpack(src: &[u8]) -> (r: Result<LockSchedule, LockTokenError>)
        ensures
            src@.len() != 16 ==> r == Err::<LockSchedule, LockTokenError>(
                LockTokenError::InvalidAccountData,
            ),
            src@.len() == 16 && lock_schedule_at(src@, 0).amount == 0 ==> r == Err::<
                LockSchedule,
                LockTokenError,
            >(LockTokenError::UninitializedAccount),
            src@.len() == 16 && lock_schedule_at(src@, 0).amount > 0 ==> r == Ok::<
                LockSchedule,
                LockTokenError,
            >(lock_schedule_at(src@, 0)),
    {
        if src.len() != Self::LEN {
            return Err(LockTokenError::InvalidAccountData);
        }
        let s = Self::unpack_from_slice(src)?;
        if !s.is_initialized() {
            return Err(LockTokenError::UninitializedAccount);
        }
        Ok(s)
    }
}

/// Reads every whole entry of `input`, one every sixteen bytes.
pub fn unpack_schedules(input: &[u8]) -> (r: Result<Vec<LockSchedule>, LockTokenError>)
    ensures
        r is Ok,
        r matches Ok(v) && v@ == lock_schedules_of(input@),
{
    let n = input.len();
    let count = n / LockSchedule::LEN;
    let mut out: Vec<LockSchedule> = Vec::new();
    let mut i: usize = 0;
    let mut offset: usize = 0;
    while i < count
        invariant
            n == input@.len(),
            count == n / 16,
            0 <= i <= count,
            offset == 16 * i,
            out@ =~= Seq::new(i as nat, |k: int| lock_schedule_at(input@, 16 * k)),
        decreases count - i,
    {
        assert(16 * (i + 1) <= n) by (nonlinear_arith)
            requires
                i < count,
                count == n / 16,
        ;
        let release_time = read_u64(input, offset);
        let amount = read_u64(input, offset + 8);
        out.push(LockSchedule { release_time, amount });
        i = i + 1;
        offset = offset + LockSchedule::LEN;
    }
    Ok(out)
}

/// The entries encoded one after the other.
pub fn schedules_to_bytes(schedules: &Vec<LockSchedule>) -> (r: Vec<u8>)
    ensures
        r@ == lock_schedules_bytes(schedules@),
{
    let mut b: Vec<u8> = Vec::new();
    let mut i: usize = 0;
    while i < schedules.len()
        invariant
            0 <= i <= schedules@.len(),
            b@ == lock_schedules_bytes(schedules@.subrange(0, i as int)),
        decreases schedules@.len() - i,
    {
        let e = schedules[i];
        push_all(&mut b, u64_to_le_bytes(e.release_time).as_slice());
        push_all(&mut b, u64_to_le_bytes(e.amount).as_slice());
        assert(schedules@.subrange(0, i + 1).drop_last() =~= schedules@.subrange(0, i as int));
        i = i + 1;
        assert(b@ =~= lock_schedules_bytes(schedules@.subrange(0, i as int)));
    }
    assert(schedules@.subrange(0, schedules@.len() as int) =~= schedules@);
    b
}

/// Writes the entries one after the other from the start of `target`.
pub fn pack_schedules_into_slice(schedules: Vec<LockSchedule>, target: &mut Vec<u8>)
    requires
        16 * schedules@.len() <= old(target)@.len(),
    ensures
        final(target)@ == splice(old(target)@, 0, lock_schedules_bytes(schedules@)),
{
    let b = schedules_to_bytes(&schedules);
    proof {
        lemma_lock_schedules_bytes(schedules@);
    }
    write_at(target, 0, b.as_slice());
}

pub proof fn lemma_lock_schedules_bytes(s: Seq<LockSchedule>)
    ensures
        lock_schedules_bytes(s).len() == 16 * s.len(),
        forall|k: int|
            0 <= k < s.len() ==> #[trigger] lock_schedules_bytes(s).subrange(16 * k, 16 * k + 16)
                == lock_schedule_bytes(s[k]),
    decreases s.len(),
{
    lemma_auto_spec_u64_to_from_le_bytes();
    if s.len() > 0 {
        let t = s.drop_last();
        lemma_lock_schedules_bytes(t);
        let b = lock_schedules_bytes(s);
        assert(b == lock_schedules_bytes(t) + lock_schedule_bytes(s.last()));
        assert forall|k: int| 0 <= k < s.len() implies #[trigger] b.subrange(16 * k, 16 * k + 16)
            == lock_schedule_bytes(s[k]) by {
            if k < s.len() - 1 {
                assert(b.subrange(16 * k, 16 * k + 16) =~= lock_schedules_bytes(t).subrange(
                    16 * k,
                    16 * k + 16,
                ));
                assert(t[k] == s[k]);
            } else {
                assert(b.subrange(16 * k, 16 * k + 16) =~= lock_schedule_bytes(s.last()));
            }
        }
    }
}

/// Storing entries over the start of a buffer of at least their size and reading the
/// buffer back gives those entries, followed by the entries that were stored after them.
pub proof fn lemma_lock_schedules_read_back(d: Seq<u8>, s: Seq<LockSchedule>)
    requires
        16 * s.len() <= d.len(),
    ensures
        lock_schedules_of(splice(d, 0, lock_schedules_bytes(s))).subrange(0, s.len() as int) == s,
        lock_schedules_of(splice(d, 0, lock_schedules_bytes(s))).len() == lock_schedules_of(d).len(),
        forall|k: int| s.len() <= k < lock_schedules_of(d).len()
            ==> #[trigger] lock_schedules_of(splice(d, 0, lock_schedules_bytes(s)))[k] == lock_schedules_of(d)[k],
{
    lemma_auto_spec_u64_to_from_le_bytes();
    lemma_lock_schedules_bytes(s);
    let sb = lock_schedules_bytes(s);
    let b = splice(d, 0, sb);
    assert(b.len() == d.len());
    let r = lock_schedules_of(b);
    assert forall|k: int| 0 <= k < s.len() implies r[k] == s[k] by {
        let e = lock_schedule_bytes(s[k]);
        assert(16 * k + 16 <= 16 * s.len()) by (nonlinear_arith) requires k < s.len();
        assert(sb.subrange(16 * k, 16 * k + 16) == e);
        assert(e.subrange(0, 8) =~= spec_u64_to_le_bytes(s[k].release_time));
        assert(e.subrange(8, 16) =~= spec_u64_to_le_bytes(s[k].amount));
        assert(b.subrange(16 * k, 16 * k + 8) =~= e.subrange(0, 8));
        assert(b.subrange(16 * k + 8, 16 * k + 16) =~= e.subrange(8, 16));
    }
    assert(s.len() <= r.len()) by (nonlinear_arith) requires 16 * s.len() <= b.len(), r.len() == b.len() / 16;
    assert(r.subrange(0, s.len() as int) =~= s);
    assert forall|k: int| s.len() <= k < lock_schedules_of(d).len() implies #[trigger] r[k] == lock_schedules_of(d)[k] by {
        assert(16 * s.len() <= 16 * k) by (nonlinear_arith) requires s.len() <= k;
        assert(16 * k + 16 <= d.len()) by (nonlinear_arith) requires k < d.len() / 16;
        assert(b.subrange(16 * k, 16 * k + 8) =~= d.subrange(16 * k, 16 * k + 8));
        assert(b.subrange(16 * k + 8, 16 * k + 16) =~= d.subrange(16 * k + 8, 16 * k + 16));
    }
}

/// Reading back the encoding of stored entries gives those entries.
pub proof fn lemma_lock_schedules_decode_encode(s: Seq<LockSchedule>)
    ensures
        lock_schedules_of(lock_schedules_bytes(s)) == s,
{
    let b = lock_schedules_bytes(s);
    lemma_lock_schedules_bytes(s);
    assert(splice(b, 0, b) =~= b);
    lemma_lock_schedules_read_back(b, s);
    assert((16 * s.len()) / 16 == s.len()) by (nonlinear_arith);
    let r = lock_schedules_of(b);
    assert(r =~= r.subrange(0, s.len() as int));
}

// ---------------------------------------------------------------- token fee record

impl TokenState {
    pub const LEN: usize = 34;

    pub open spec fn spec_pack(&self) -> Seq<u8> {
        self.mint_address@ + seq![flag_byte(self.is_free), flag_byte(self.is_initialized)]
    }

    /// The record holds the fields stored at the start of `b`.
    pub open spec fn read_from(&self, b: Seq<u8>) -> bool {
        &&& self.mint_address@ == b.subrange(0, 32)
        &&& self.is_free == flag_of(b[32])
        &&& self.is_initialized == flag_of(b[33])
    }

    pub fn is_initialized(&self) -> (r: bool)
        ensures
            r == self.is_initialized,
    {
        self.is_initialized
    }

    /// Writes the record over the first `LEN` bytes of `dst`.
    pub fn pack_into_slice(&self, dst: &mut Vec<u8>)
        requires
            old(dst)@.len() >= 34,
        ensures
            final(dst)@ == splice(old(dst)@, 0, self.spec_pack()),
    {
        let mut b: Vec<u8> = Vec::new();
        push_all(&mut b, self.mint_address.bytes.as_slice());
        b.push(if self.is_free { 1 } else { 0 });
        b.push(if self.is_initialized { 1 } else { 0 });
        assert(b@ =~= self.spec_pack());
        write_at(dst, 0, b.as_slice());
    }

    /// Reads a record from the start of `src`; fails when `src` is shorter than `LEN`.
    pub fn unpack_from_slice(src: &[u8]) -> (r: Result<TokenState, LockTokenError>)
        ensures
            match r {
                Ok(t) => src@.len() >= 34 && t.read_from(src@),
                Err(e) => src@.len() < 34 && e == LockTokenError::InvalidAccountData,
            },
    {
        if src.len() < Self::LEN {
            return Err(LockTokenError::InvalidAccountData);
        }
        Ok(TokenState {
            mint_address: Address { bytes: read_array32(src, 0) },
            is_free: src[32] == 1,
            is_initialized: src[33] == 1,
        })
    }

    /// Reads an initialized record from a buffer of exactly `LEN` bytes.
    pub fn unpack(src: &[u8]) -> (r: Result<TokenState, LockTokenError>)
        ensures
            src@.len() != 34 ==> r == Err::<TokenState, LockTokenError>(
                LockTokenError::InvalidAccountData,
            ),
            src@.len() == 34 && !flag_of(src@[33]) ==> r == Err::<TokenState, LockTokenError>(
                LockTokenError::UninitializedAccount,
            ),
            r matches Ok(t) ==> src@.len() == 34 && t.is_initialized && t.read_from(src@),
            src@.len() == 34 && flag_of(src@[33]) ==> r is Ok,
    {
        if src.len() != Self::LEN {
            return Err(LockTokenError::InvalidAccountData);
        }
        let t = Self::unpack_from_slice(src)?;
        if !t.is_initialized() {
            return Err(LockTokenError::UninitializedAccount);
        }
        Ok(t)
    }

    /// The onboarding fee in lamports: nothing for a mint whose flag is clear, a flat
    /// hundred otherwise.
    pub open spec fn spec_fee(&self) -> u64 {
        if self.is_free {
            100
        } else {
            0
        }
    }

    pub fn estimate_fees_in_sol(&self) -> (r: Result<u64, LockTokenError>)
        ensures
            r == Ok::<u64, LockTokenError>(self.spec_fee()),
    {
        if !self.is_free {
            return Ok(0);
        }
        Ok(100)
    }
}

// ---------------------------------------------------------------- global state

impl LockGlobalState {
    pub const LEN: usize = 106;

    pub open spec fn spec_pack(&self) -> Seq<u8> {
        self.price_estimator@ + self.usd_token_address@ + spec_u64_to_le_bytes(self.fees_in_usd)
            + self.company_wallet@ + seq![flag_byte(self.is_paused), flag_byte(self.is_initialized)]
    }

    /// The record holds the fields stored at the start of `b`.
    pub open spec fn read_from(&self, b: Seq<u8>) -> bool {
        &&& self.price_estimator@ == b.subrange(0, 32)
        &&& self.usd_token_address@ == b.subrange(32, 64)
        &&& self.fees_in_usd == u64_at(b, 64)
        &&& self.company_wallet@ == b.subrange(72, 104)
        &&& self.is_paused == flag_of(b[104])
        &&& self.is_initialized == flag_of(b[105])
    }

    pub fn is_initialized(&self) -> (r: bool)
        ensures
            r == self.is_initialized,
    {
        self.is_initialized
    }

    /// Writes the record over the first `LEN` bytes of `dst`.
    pub fn pack_into_slice(&self, dst: &mut Vec<u8>)
        requires
            old(dst)@.len() >= 106,
        ensures
            final(dst)@ == splice(old(dst)@, 0, self.spec_pack()),
    {
        let mut b: Vec<u8> = Vec::new();
        push_all(&mut b, self.price_estimator.bytes.as_slice());
        push_all(&mut b, self.usd_token_address.bytes.as_slice());
        push_all(&mut b, u64_to_le_bytes(self.fees_in_usd).as_slice());
        push_all(&mut b, self.company_wallet.bytes.as_slice());
        b.push(if self.is_paused { 1 } else { 0 });
        b.push(if self.is_initialized { 1 } else { 0 });
        assert(b@ =~= self.spec_pack());
        write_at(dst, 0, b.as_slice());
    }

    /// Reads a record from the start of `src`; fails when `src` is shorter than `LEN`.
    pub fn unpack_from_slice(src: &[u8]) -> (r: Result<LockGlobalState, LockTokenError>)
        ensures
            match r {
                Ok(g) => src@.len() >= 106 && g.read_from(src@),
                Err(e) => src@.len() < 106 && e == LockTokenError::InvalidAccountData,
            },
    {
        if src.len() < Self::LEN {
            return Err(LockTokenError::InvalidAccountData);
        }
        Ok(LockGlobalState {
            price_estimator: Address { bytes: read_array32(src, 0) },
            usd_token_address: Address { bytes: read_array32(src, 32) },
            fees_in_usd: read_u64(src, 64),
            company_wallet: Address { bytes: read_array32(src, 72) },
            is_paused: src[104] == 1,
            is_initialized: src[105] == 1,
        })
    }

    /// Reads an initialized record from a buffer of exactly `LEN` bytes.
    pub fn unpack(src: &[u8]) -> (r: Result<LockGlobalState, LockTokenError>)
        ensures
            src@.len() != 106 ==> r == Err::<LockGlobalState, LockTokenError>(
                LockTokenError::InvalidAccountData,
            ),
            src@.len() == 106 && !flag_of(src@[105]) ==> r == Err::<
                LockGlobalState,
                LockTokenError,
            >(LockTokenError::UninitializedAccount),
            r matches Ok(g) ==> src@.len() == 106 && g.is_initialized && g.read_from(src@),
            src@.len() == 106 && flag_of(src@[105]) ==> r is Ok,
    {
        if src.len() != Self::LEN {
            return Err(LockTokenError::InvalidAccountData);
        }
        let g = Self::unpack_from_slice(src)?;
        if !g.is_initialized() {
            return Err(LockTokenError::UninitializedAccount);
        }
        Ok(g)
    }
}

} // verus!
