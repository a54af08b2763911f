use crate::address::Address;
use crate::bytes::u64_at;
use crate::error::LockTokenError;
use vstd::prelude::*;

verus! {

/// The program address that `seed` derives under `program_id`, or `None` where the
/// derivation lands on the curve and has no program address.
pub uninterp spec fn program_address(seed: Seq<u8>, program_id: Seq<u8>) -> Option<Seq<u8>>;

/// The 32 bytes that a base58 text names, or `None` where it names none.
pub uninterp spec fn base58_address(text: Seq<char>) -> Option<Seq<u8>>;

/// Relies on `Pubkey::create_program_address` with a single seed of at most 32 bytes:
/// its result depends on the seed and the program identity alone.
#[verifier::external_body]
pub(crate) fn derive_program_address(seed: &[u8], program_id: &Address) -> (r: Option<Address>)
    requires
        seed@.len() <= 32,
    ensures
        r matches Some(a) ==> program_address(seed@, program_id@) == Some(a@),
        r is None ==> program_address(seed@, program_id@) is None,
{
    let id = solana_program::pubkey::Pubkey::new_from_array(program_id.bytes);
    match solana_program::pubkey::Pubkey::create_program_address(&[seed], &id) {
        Ok(key) => Some(Address { bytes: key.to_bytes() }),
        Err(_) => None,
    }
}

/// Relies on `Pubkey::from_str`: the address that a base58 text names, if any.
#[verifier::external_body]
pub(crate) fn parse_address(text: &str) -> (r: Option<Address>)
    ensures
        r matches Some(a) ==> base58_address(text@) == Some(a@),
        r is None ==> base58_address(text@) is None,
{
    match <solana_program::pubkey::Pubkey as std::str::FromStr>::from_str(text) {
        Ok(key) => Some(Address { bytes: key.to_bytes() }),
        Err(_) => None,
    }
}

/// The identity of the token program that the spl-token crate declares.
pub open spec fn spec_token_program_id() -> Seq<u8> {
    seq![
        6u8, 221, 246, 225, 215, 101, 161, 147, 217, 203, 225, 70, 206, 235, 121, 172, 28, 180,
        133, 237, 95, 91, 55, 145, 58, 140, 245, 133, 126, 255, 0, 169,
    ]
}

/// Relies on `spl_token::id`: the token program's identity, declared there as
/// `TokenkegQfeZyiNwAJbNbGKPFXCWuBvf9Ss623VQ5DA`.
#[verifier::external_body]
pub(crate) fn token_program_id() -> (r: Address)
    ensures
        r@ == spec_token_program_id(),
{
    Address { bytes: spl_token::id().to_bytes() }
}

/// What the lock program reads of a token account.
#[derive(Clone, Copy, Debug)]
pub struct TokenAccount {
    pub mint: Address,
    pub owner: Address,
    pub amount: u64,
    pub has_delegate: bool,
    pub has_close_authority: bool,
}

/// The four-byte tag of an optional field, at offset `at`, is 0 (absent) or 1 (present).
pub open spec fn option_tag_valid(b: Seq<u8>, at: int) -> bool {
    b.subrange(at, at + 4) == seq![0u8, 0, 0, 0] || b.subrange(at, at + 4) == seq![1u8, 0, 0, 0]
}

/// `b` has the token account layout: 165 bytes, a known state byte at offset 108, and
/// valid tags for the delegate (72), the native reserve (109) and the close authority (129).
pub open spec fn token_account_layout(b: Seq<u8>) -> bool {
    &&& b.len() == 165
    &&& option_tag_valid(b, 72)
    &&& b[108] <= 2
    &&& option_tag_valid(b, 109)
    &&& option_tag_valid(b, 129)
}

/// Relies on `spl_token::state::Account::unpack`: it refuses a buffer without the token
/// account layout as invalid data and one whose state byte is 0 as uninitialized, and
/// reads mint, owner, amount, delegate and close authority at their fixed offsets.
#[verifier::external_body]
pub(crate) fn unpack_token_account(data: &[u8]) -> (r: Result<TokenAccount, LockTokenError>)
    ensures
        match r {
            Ok(a) => {
                &&& token_account_layout(data@)
                &&& data@[108] != 0
                &&& a.mint@ == data@.subrange(0, 32)
                &&& a.owner@ == data@.subrange(32, 64)
                &&& a.amount == u64_at(data@, 64)
                &&& a.has_delegate == (data@[72] == 1)
                &&& a.has_close_authority == (data@[129] == 1)
            },
            Err(e) => if token_account_layout(data@) {
                data@[108] == 0 && e == LockTokenError::UninitializedAccount
            } else {
                e == LockTokenError::InvalidAccountData
            },
        },
{
    match <spl_token::state::Account as solana_program::program_pack::Pack>::unpack(data) {
        Ok(a) => Ok(TokenAccount {
            mint: Address { bytes: a.mint.to_bytes() },
            owner: Address { bytes: a.owner.to_bytes() },
            amount: a.amount,
            has_delegate: a.delegate.is_some(),
            has_close_authority: a.close_authority.is_some(),
        }),
        Err(solana_program::program_error::ProgramError::UninitializedAccount) => Err(
            LockTokenError::UninitializedAccount,
        ),
        Err(_) => Err(LockTokenError::InvalidAccountData),
    }
}

} // verus!
