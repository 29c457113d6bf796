//! The fixed layout of a token-account record.
//!
//! A token account is 165 bytes: mint (32), owner (32), amount (8, little
//! endian), delegate (4-byte tag and 32-byte key), state (1), native reserve
//! (4-byte tag and 8-byte amount), delegated amount (8) and close authority
//! (4-byte tag and 32-byte key). The packing itself is done by the token
//! program's own code; this module states the layout and proves that a record
//! survives a trip through it.

use crate::account::{AccountRecord, AccountView};
use crate::keys::Pubkey;
use solana_pubkey::Pubkey as ProgramKey;
use solana_sdk::program_error::ProgramError;
use solana_sdk::program_pack::Pack;
use spl_token::state::{Account as PackedAccount, AccountState as PackedState};
use vstd::bytes::{
    lemma_auto_spec_u64_to_from_le_bytes, spec_u64_from_le_bytes, spec_u64_to_le_bytes,
};
use vstd::prelude::*;

verus! {

/// Length in bytes of a packed token account.
pub const TOKEN_ACCOUNT_LEN: usize = 165;

/// Lifecycle state of a token account.
#[derive(Clone, Copy, Debug, PartialEq, Eq, Structural)]
pub enum AccountState {
    /// Not yet initialised.
    Uninitialized,
    /// In use.
    Initialized,
    /// Frozen by the mint's freeze authority.
    Frozen,
}

/// The fields of a token account.
#[derive(Clone, Copy, Debug, PartialEq, Eq)]
pub struct TokenRecord {
    /// The mint this account holds tokens of.
    pub mint: Pubkey,
    /// The owner of the account.
    pub owner: Pubkey,
    /// The number of tokens held.
    pub amount: u64,
    /// The delegate, if one is set.
    pub delegate: Option<Pubkey>,
    /// The lifecycle state.
    pub state: AccountState,
    /// For a native account, the rent-exempt reserve.
    pub is_native: Option<u64>,
    /// The amount the delegate may move.
    pub delegated_amount: u64,
    /// The authority that may close the account, if one is set.
    pub close_authority: Option<Pubkey>,
}

/// Why a byte string is not a usable token account.
#[derive(Clone, Copy, Debug, PartialEq, Eq, Structural)]
pub enum CodecError {
    /// Wrong length, an unknown tag or an unknown state byte.
    InvalidAccountData,
    /// Well formed, but in the uninitialised state.
    UninitializedAccount,
}

/// `n` zero bytes.
pub open spec fn zeros(n: nat) -> Seq<u8> {
    Seq::new(n, |i: int| 0u8)
}

/// The tag that marks an optional field as absent.
pub open spec fn tag_none() -> Seq<u8> {
    seq![0u8, 0u8, 0u8, 0u8]
}

/// The tag that marks an optional field as present.
pub open spec fn tag_some() -> Seq<u8> {
    seq![1u8, 0u8, 0u8, 0u8]
}

/// The address whose bytes are `bytes`.
pub open spec fn key_from_bytes(bytes: Seq<u8>) -> Pubkey {
    choose|key: Pubkey| key.bytes@ == bytes
}

/// The byte that stands for a state.
pub open spec fn state_byte(state: AccountState) -> u8 {
    match state {
        AccountState::Uninitialized => 0u8,
        AccountState::Initialized => 1u8,
        AccountState::Frozen => 2u8,
    }
}

/// The state that a byte stands for, if any.
pub open spec fn state_from_byte(byte: u8) -> Option<AccountState> {
    if byte == 0 {
        Some(AccountState::Uninitialized)
    } else if byte == 1 {
        Some(AccountState::Initialized)
    } else if byte == 2 {
        Some(AccountState::Frozen)
    } else {
        None
    }
}

/// The 36 bytes of an optional key written over `prior`: an absent key
/// rewrites the tag only and leaves the 32 bytes after it as they were.
pub open spec fn optional_key_over(key: Option<Pubkey>, prior: Seq<u8>) -> Seq<u8> {
    match key {
        Some(k) => tag_some() + k.bytes@,
        None => tag_none() + prior.subrange(4, 36),
    }
}

/// The 12 bytes of an optional amount written over `prior`: an absent amount
/// rewrites the tag only and leaves the 8 bytes after it as they were.
pub open spec fn optional_amount_over(amount: Option<u64>, prior: Seq<u8>) -> Seq<u8> {
    match amount {
        Some(a) => tag_some() + spec_u64_to_le_bytes(a),
        None => tag_none() + prior.subrange(4, 12),
    }
}

/// What a 165-byte buffer holds after `record` has been packed over `prior`.
pub open spec fn packed_over(record: TokenRecord, prior: Seq<u8>) -> Seq<u8> {
    record.mint.bytes@ + record.owner.bytes@ + spec_u64_to_le_bytes(record.amount)
        + optional_key_over(record.delegate, prior.subrange(72, 108)) + seq![
        state_byte(record.state),
    ] + optional_amount_over(record.is_native, prior.subrange(109, 121)) + spec_u64_to_le_bytes(
        record.delegated_amount,
    ) + optional_key_over(record.close_authority, prior.subrange(129, 165))
}

/// The packed form of `record` in a fresh, zeroed buffer.
pub open spec fn encoded(record: TokenRecord) -> Seq<u8> {
    packed_over(record, zeros(165))
}

/// The optional key that 36 bytes stand for; `None` for an unknown tag.
pub open spec fn optional_key_of(field: Seq<u8>) -> Option<Option<Pubkey>> {
    if field.subrange(0, 4) == tag_none() {
        Some(None)
    } else if field.subrange(0, 4) == tag_some() {
        Some(Some(key_from_bytes(field.subrange(4, 36))))
    } else {
        None
    }
}

/// The optional amount that 12 bytes stand for; `None` for an unknown tag.
pub open spec fn optional_amount_of(field: Seq<u8>) -> Option<Option<u64>> {
    if field.subrange(0, 4) == tag_none() {
        Some(None)
    } else if field.subrange(0, 4) == tag_some() {
        Some(Some(spec_u64_from_le_bytes(field.subrange(4, 12))))
    } else {
        None
    }
}

/// Whether `data` has the length, tags and state byte of a token account.
pub open spec fn well_formed(data: Seq<u8>) -> bool {
    &&& data.len() == 165
    &&& optional_key_of(data.subrange(72, 108)) is Some
    &&& state_from_byte(data[108]) is Some
    &&& optional_amount_of(data.subrange(109, 121)) is Some
    &&& optional_key_of(data.subrange(129, 165)) is Some
}

/// The fields that well-formed `data` holds.
pub open spec fn fields_of(data: Seq<u8>) -> TokenRecord {
    TokenRecord {
        mint: key_from_bytes(data.subrange(0, 32)),
        owner: key_from_bytes(data.subrange(32, 64)),
        amount: spec_u64_from_le_bytes(data.subrange(64, 72)),
        delegate: optional_key_of(data.subrange(72, 108))->0,
        state: state_from_byte(data[108])->0,
        is_native: optional_amount_of(data.subrange(109, 121))->0,
        delegated_amount: spec_u64_from_le_bytes(data.subrange(121, 129)),
        close_authority: optional_key_of(data.subrange(129, 165))->0,
    }
}

/// What unpacking `data` gives: the fields of an initialised, well-formed
/// account, and an error for anything else.
pub open spec fn decoded(data: Seq<u8>) -> Result<TokenRecord, CodecError> {
    if !well_formed(data) {
        Err(CodecError::InvalidAccountData)
    } else if fields_of(data).state == AccountState::Uninitialized {
        Err(CodecError::UninitializedAccount)
    } else {
        Ok(fields_of(data))
    }
}

/// An address is determined by its bytes.
pub proof fn lemma_key_from_bytes(key: Pubkey)
    ensures
        key_from_bytes(key.bytes@) == key,
{
    let found = key_from_bytes(key.bytes@);
    assert(found.bytes@ == key.bytes@);
    assert(forall|i: int| 0 <= i < 32 ==> found.bytes[i] == key.bytes[i]) by {
        assert forall|i: int| 0 <= i < 32 implies found.bytes[i] == key.bytes[i] by {
            assert(found.bytes@[i] == key.bytes@[i]);
        }
    }
    assert(found.bytes =~= key.bytes);
}

/// Packing over any 165-byte buffer and reading the fields back gives the
/// record that was packed.
pub proof fn lemma_fields_of_packed(record: TokenRecord, prior: Seq<u8>)
    requires
        prior.len() == 165,
    ensures
        packed_over(record, prior).len() == 165,
        well_formed(packed_over(record, prior)),
        fields_of(packed_over(record, prior)) == record,
{
    lemma_auto_spec_u64_to_from_le_bytes();
    let data = packed_over(record, prior);
    let delegate = optional_key_over(record.delegate, prior.subrange(72, 108));
    let native = optional_amount_over(record.is_native, prior.subrange(109, 121));
    let closer = optional_key_over(record.close_authority, prior.subrange(129, 165));
    assert(delegate.len() == 36);
    assert(native.len() == 12);
    assert(closer.len() == 36);
    assert(data.len() == 165);
    assert(data.subrange(0, 32) =~= record.mint.bytes@);
    assert(data.subrange(32, 64) =~= record.owner.bytes@);
    assert(data.subrange(64, 72) =~= spec_u64_to_le_bytes(record.amount));
    assert(data.subrange(72, 108) =~= delegate);
    assert(data[108] == state_byte(record.state));
    assert(data.subrange(109, 121) =~= native);
    assert(data.subrange(121, 129) =~= spec_u64_to_le_bytes(record.delegated_amount));
    assert(data.subrange(129, 165) =~= closer);
    lemma_key_from_bytes(record.mint);
    lemma_key_from_bytes(record.owner);
    lemma_optional_key_round_trip(record.delegate, prior.subrange(72, 108));
    lemma_optional_key_round_trip(record.close_authority, prior.subrange(129, 165));
    match record.is_native {
        Some(a) => {
            assert(native.subrange(0, 4) =~= tag_some());
            assert(native.subrange(4, 12) =~= spec_u64_to_le_bytes(a));
            assert(tag_some()[0] != tag_none()[0]);
        },
        None => {
            assert(native.subrange(0, 4) =~= tag_none());
        },
    }
}

/// An optional key written over any 36 bytes reads back as itself.
pub proof fn lemma_optional_key_round_trip(key: Option<Pubkey>, prior: Seq<u8>)
    requires
        prior.len() == 36,
    ensures
        optional_key_of(optional_key_over(key, prior)) == Some(key),
{
    let field = optional_key_over(key, prior);
    match key {
        Some(k) => {
            assert(field.subrange(0, 4) =~= tag_some());
            assert(field.subrange(4, 36) =~= k.bytes@);
            assert(tag_some()[0] != tag_none()[0]);
            lemma_key_from_bytes(k);
        },
        None => {
            assert(field.subrange(0, 4) =~= tag_none());
        },
    }
}

/// A record that is packed into a fresh buffer and unpacked again comes back
/// unchanged, unless it is uninitialised, which unpacking refuses.
pub proof fn lemma_decoded_encoded(record: TokenRecord)
    ensures
        encoded(record).len() == 165,
        record.state != AccountState::Uninitialized ==> decoded(encoded(record)) is Ok
            && decoded(encoded(record))->Ok_0 == record,
        record.state == AccountState::Uninitialized ==> decoded(encoded(record)) is Err
            && decoded(encoded(record))->Err_0 == CodecError::UninitializedAccount,
{
    lemma_fields_of_packed(record, zeros(165));
}

/// The bytes of the token program's address.
pub open spec fn token_program_bytes() -> Seq<u8> {
    seq![
        6u8, 221u8, 246u8, 225u8, 215u8, 101u8, 161u8, 147u8, 217u8, 203u8, 225u8, 70u8, 206u8,
        235u8, 121u8, 172u8, 28u8, 180u8, 133u8, 237u8, 95u8, 91u8, 55u8, 145u8, 58u8, 140u8,
        245u8, 133u8, 126u8, 255u8, 0u8, 169u8,
    ]
}

/// The address of the token program, which owns every token account.
pub open spec fn token_program_key() -> Pubkey {
    key_from_bytes(token_program_bytes())
}

/// The token program's address has the bytes of `token_program_bytes`.
pub proof fn lemma_token_program_key()
    ensures
        token_program_key().bytes@ == token_program_bytes(),
{
    let key = Pubkey {
        bytes: [
            6u8, 221u8, 246u8, 225u8, 215u8, 101u8, 161u8, 147u8, 217u8, 203u8, 225u8, 70u8,
            206u8, 235u8, 121u8, 172u8, 28u8, 180u8, 133u8, 237u8, 95u8, 91u8, 55u8, 145u8, 58u8,
            140u8, 245u8, 133u8, 126u8, 255u8, 0u8, 169u8,
        ],
    };
    assert(key.bytes@ =~= token_program_bytes());
}

/// `spl_token::id()`: the token program's address. Its bytes are trusted to
/// be those of `token_program_bytes`.
#[verifier::external_body]
fn program_id() -> (id: Pubkey)
    ensures
        id.bytes@ == token_program_bytes(),
{
    Pubkey { bytes: spl_token::id().to_bytes() }
}

/// `Pack::get_packed_len` for the token program's `Account`: trusted to be
/// the constant 165.
#[verifier::external_body]
fn packed_len() -> (len: usize)
    ensures
        len == 165,
{
    PackedAccount::get_packed_len()
}

/// `Pack::pack` for the token program's `Account`. Trusted: a destination
/// that is not 165 bytes long is refused and left alone; otherwise every
/// field is written at its offset, and an absent optional field rewrites its
/// tag only.
#[verifier::external_body]
fn pack_into(record: &TokenRecord, dst: &mut Vec<u8>) -> (res: Result<(), CodecError>)
    ensures
        res is Ok <==> old(dst)@.len() == 165,
        res is Ok ==> final(dst)@ == packed_over(*record, old(dst)@),
        res is Err ==> res->Err_0 == CodecError::InvalidAccountData && final(dst)@ == old(dst)@,
{
    let state = match record.state {
        AccountState::Uninitialized => PackedState::Uninitialized,
        AccountState::Initialized => PackedState::Initialized,
        AccountState::Frozen => PackedState::Frozen,
    };
    let account = PackedAccount {
        mint: ProgramKey::from(record.mint.bytes), owner: ProgramKey::from(record.owner.bytes),
        amount: record.amount, delegate: record.delegate.map(|k| ProgramKey::from(k.bytes)).into(),
        state, is_native: record.is_native.into(), delegated_amount: record.delegated_amount,
        close_authority: record.close_authority.map(|k| ProgramKey::from(k.bytes)).into(),
    };
    PackedAccount::pack(account, dst).map_err(|_| CodecError::InvalidAccountData)
}

/// `Pack::unpack` for the token program's `Account`. Trusted: data of the
/// wrong length, with an unknown tag or an unknown state byte is refused as
/// invalid, a well-formed account in the uninitialised state is refused as
/// uninitialised, and anything else gives the fields read at their offsets.
#[verifier::external_body]
fn unpack(data: &[u8]) -> (res: Result<TokenRecord, CodecError>)
    ensures
        res == decoded(data@),
{
    let account = PackedAccount::unpack(data).map_err(|e| match e {
        ProgramError::UninitializedAccount => CodecError::UninitializedAccount,
        _ => CodecError::InvalidAccountData,
    })?;
    let key = |k: ProgramKey| Pubkey { bytes: k.to_bytes() };
    let state = match account.state {
        PackedState::Uninitialized => AccountState::Uninitialized,
        PackedState::Initialized => AccountState::Initialized,
        PackedState::Frozen => AccountState::Frozen,
    };
    let (delegate, close_authority) = (account.delegate.map(key), account.close_authority.map(key));
    Ok(TokenRecord { mint: key(account.mint), owner: key(account.owner), amount: account.amount,
        delegate: delegate.into(), state, is_native: account.is_native.into(),
        delegated_amount: account.delegated_amount, close_authority: close_authority.into() })
}

/// The address of the token program.
pub fn token_program_id() -> (id: Pubkey)
    ensures
        id == token_program_key(),
{
    let id = program_id();
    proof {
        lemma_key_from_bytes(id);
    }
    id
}

/// Packs `record` into a fresh buffer of the token-account length.
pub fn pack_record(record: &TokenRecord) -> (res: Result<Vec<u8>, CodecError>)
    ensures
        res matches Ok(data) && data@ == encoded(*record),
{
    let len = packed_len();
    let mut data: Vec<u8> = vec![0u8; len];
    assert(data@ =~= zeros(165));
    match pack_into(record, &mut data) {
        Ok(()) => Ok(data),
        Err(e) => Err(e),
    }
}

/// Unpacks the token account held in `data`.
pub fn unpack_record(data: &[u8]) -> (res: Result<TokenRecord, CodecError>)
    ensures
        res == decoded(data@),
{
    unpack(data)
}

/// The record of a token account that has just been opened for `owner` on
/// `mint`: initialised, holding `amount` or nothing, with every optional
/// field empty.
pub open spec fn fresh_record(mint: Pubkey, owner: Pubkey, amount: Option<u64>) -> TokenRecord {
    TokenRecord {
        mint,
        owner,
        amount: match amount {
            Some(a) => a,
            None => 0,
        },
        delegate: None,
        state: AccountState::Initialized,
        is_native: None,
        delegated_amount: 0,
        close_authority: None,
    }
}

/// `record` with each of owner, mint and amount replaced where one is given.
pub open spec fn edited_record(
    record: TokenRecord,
    owner: Option<Pubkey>,
    mint: Option<Pubkey>,
    amount: Option<u64>,
) -> TokenRecord {
    TokenRecord {
        owner: match owner {
            Some(o) => o,
            None => record.owner,
        },
        mint: match mint {
            Some(m) => m,
            None => record.mint,
        },
        amount: match amount {
            Some(a) => a,
            None => record.amount,
        },
        ..record
    }
}

/// The account that holds `record`: its packed form in a fresh buffer,
/// owned by the token program, not executable, with rent epoch 0.
pub open spec fn token_account(record: TokenRecord, lamports: u64) -> AccountView {
    AccountView {
        lamports,
        data: encoded(record),
        owner: token_program_key(),
        executable: false,
        rent_epoch: 0,
    }
}

/// The record of a token account that has just been opened.
pub fn new_record(mint: &Pubkey, owner: &Pubkey, amount: Option<u64>) -> (record: TokenRecord)
    ensures
        record == fresh_record(*mint, *owner, amount),
{
    TokenRecord {
        mint: *mint,
        owner: *owner,
        amount: match amount {
            Some(a) => a,
            None => 0,
        },
        delegate: None,
        state: AccountState::Initialized,
        is_native: None,
        delegated_amount: 0,
        close_authority: None,
    }
}

/// Replaces each of owner, mint and amount for which a value is given.
pub fn edit_record(
    record: &mut TokenRecord,
    owner: Option<&Pubkey>,
    mint: Option<&Pubkey>,
    amount: Option<u64>,
)
    ensures
        *final(record) == edited_record(
            *old(record),
            crate::keys::copied(owner),
            crate::keys::copied(mint),
            amount,
        ),
{
    if let Some(o) = owner {
        record.owner = *o;
    }
    if let Some(m) = mint {
        record.mint = *m;
    }
    if let Some(a) = amount {
        record.amount = a;
    }
}

/// Builds the account that holds `record` with a balance of `lamports`.
pub fn build_token_account(record: &TokenRecord, lamports: u64) -> (res: Result<
    AccountRecord,
    CodecError,
>)
    ensures
        res matches Ok(account) && account@ == token_account(*record, lamports),
{
    match pack_record(record) {
        Ok(data) => {
            let mut account = AccountRecord::new(lamports, data.len(), &token_program_id());
            account.set_data(data);
            Ok(account)
        },
        Err(e) => Err(e),
    }
}

} // verus!
