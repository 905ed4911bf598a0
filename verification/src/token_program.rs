//! The token program: its constants, its instructions and the checks
//! that it makes on the accounts handed to it.

use vstd::prelude::*;
use crate::identity::Identity;
use crate::instruction::le_u64;

verus! {

/// Name of the token.
pub const TOKEN_NAME: &'static str = "$LE Token";

/// Ticker symbol of the token.
pub const TOKEN_SYMBOL: &'static str = "LE";

/// Decimal places of one token.
pub const TOKEN_DECIMALS: u8 = 9;

/// Total supply in the smallest unit: one billion tokens.
pub const TOKEN_TOTAL_SUPPLY: u64 = 1_000_000_000_000_000_000;

/// Tag of the instruction that initializes the mint.
pub const TAG_INITIALIZE_MINT: u8 = 0;

/// Tag of the instruction that mints tokens.
pub const TAG_MINT_TO: u8 = 1;

/// Tag of the transfer instruction, which is switched off.
pub const TAG_TRANSFER: u8 = 2;

/// Why the token program refuses an instruction.
#[derive(Clone, Copy, Debug, PartialEq, Eq, Structural)]
pub enum TokenError {
    /// The instruction bytes name no instruction that the program takes.
    InvalidInstructionData,
    /// Fewer accounts were handed over than the instruction reads.
    NotEnoughAccountKeys,
    /// An account that the program must own belongs to another program.
    IncorrectProgramId,
    /// An account that must have signed has not.
    MissingRequiredSignature,
    /// The stored data does not go with the accounts handed over.
    InvalidAccountData,
    /// The stored data cannot be read.
    UnreadableAccountData,
}

/// An instruction of the token program.
#[derive(Clone, Copy, Debug, PartialEq, Eq, Structural)]
pub enum TokenInstruction {
    /// Initialize the mint.
    InitializeMint,
    /// Mint `amount` units; for administrators only.
    MintTo { amount: u64 },
    /// Move `amount` units. Switched off: no buffer decodes to it.
    Transfer { amount: u64 },
}

/// What one account contributes to the checks of the program.
#[derive(Debug)]
pub struct AccountMeta {
    /// The address of the account.
    pub key: Identity,
    /// The program that owns the account.
    pub owner: Identity,
    /// Whether the account has signed the transaction.
    pub is_signer: bool,
}

/// What a byte buffer decodes to as a token instruction. Transfers are
/// switched off, so their tag is refused like an unknown one.
pub open spec fn decode_token(bytes: Seq<u8>) -> Result<TokenInstruction, TokenError> {
    if bytes.len() == 0 {
        Err(TokenError::InvalidInstructionData)
    } else if bytes[0] == TAG_INITIALIZE_MINT {
        Ok(TokenInstruction::InitializeMint)
    } else if bytes[0] == TAG_MINT_TO && bytes.len() >= 9 {
        Ok(TokenInstruction::MintTo { amount: le_u64(bytes.subrange(1, 9)) })
    } else {
        Err(TokenError::InvalidInstructionData)
    }
}

/// The checks on the three accounts of an instruction: the first `owned`
/// of them must belong to the program, and the one at `signer` must have
/// signed. A missing account is reported first, a foreign owner next.
pub open spec fn check_accounts(
    program_id: Seq<u8>,
    accounts: Seq<AccountMeta>,
    owned: int,
    signer: int,
) -> Result<(), TokenError> {
    if accounts.len() < 3 {
        Err(TokenError::NotEnoughAccountKeys)
    } else if exists|i: int| 0 <= i < owned && (#[trigger] accounts[i]).owner@ != program_id {
        Err(TokenError::IncorrectProgramId)
    } else if !accounts[signer].is_signer {
        Err(TokenError::MissingRequiredSignature)
    } else {
        Ok(())
    }
}

/// What the program answers to an instruction in its wire form.
pub open spec fn process_token(
    program_id: Seq<u8>,
    accounts: Seq<AccountMeta>,
    instruction_data: Seq<u8>,
) -> Result<(), TokenError> {
    match decode_token(instruction_data) {
        Err(e) => Err(e),
        Ok(TokenInstruction::InitializeMint) => check_accounts(program_id, accounts, 1, 1),
        Ok(TokenInstruction::MintTo { .. }) => check_accounts(program_id, accounts, 2, 2),
        Ok(TokenInstruction::Transfer { .. }) => Err(TokenError::InvalidInstructionData),
    }
}

/// No buffer decodes to a transfer.
pub proof fn lemma_transfer_is_off(bytes: Seq<u8>)
    ensures
        !(decode_token(bytes) matches Ok(TokenInstruction::Transfer { .. })),
        bytes.len() > 0 && bytes[0] == TAG_TRANSFER ==> decode_token(bytes) == Err::<
            TokenInstruction,
            TokenError,
        >(TokenError::InvalidInstructionData),
{
}

impl TokenInstruction {
    /// Decodes a token instruction from its wire form.
    ///
    /// Fails with `InvalidInstructionData` when `input` is empty, starts
    /// with the tag of a transfer or an unknown tag, or is too short for
    /// the amount of a mint.
    pub fn unpack(input: &[u8]) -> (r: Result<TokenInstruction, TokenError>)
        ensures
            r == decode_token(input@),
    {
        if input.len() == 0 {
            return Err(TokenError::InvalidInstructionData);
        }
        let tag = input[0];
        if tag == TAG_INITIALIZE_MINT {
            Ok(TokenInstruction::InitializeMint)
        } else if tag == TAG_MINT_TO {
            if input.len() < 9 {
                return Err(TokenError::InvalidInstructionData);
            }
            Ok(TokenInstruction::MintTo { amount: crate::instruction::read_u64(input, 1) })
        } else {
            Err(TokenError::InvalidInstructionData)
        }
    }
}

/// Checks the accounts of a mint initialization: the mint, which the
/// program must own, the mint authority, which must have signed, and the
/// payer.
pub fn process_initialize_mint(program_id: &Identity, accounts: &[AccountMeta]) -> (r: Result<
    (),
    TokenError,
>)
    ensures
        r == check_accounts(program_id@, accounts@, 1, 1),
{
    if accounts.len() < 3 {
        return Err(TokenError::NotEnoughAccountKeys);
    }
    if !accounts[0].owner.same(program_id) {
        return Err(TokenError::IncorrectProgramId);
    }
    if !accounts[1].is_signer {
        return Err(TokenError::MissingRequiredSignature);
    }
    Ok(())
}

/// Checks the accounts of a mint of `amount` units: the mint and the
/// destination, both of which the program must own, and the authority,
/// which must have signed. The amount takes no part in the checks.
pub fn process_mint_to(program_id: &Identity, accounts: &[AccountMeta], amount: u64) -> (r: Result<
    (),
    TokenError,
>)
    ensures
        r == check_accounts(program_id@, accounts@, 2, 2),
{
    if accounts.len() < 3 {
        return Err(TokenError::NotEnoughAccountKeys);
    }
    if !accounts[0].owner.same(program_id) || !accounts[1].owner.same(program_id) {
        return Err(TokenError::IncorrectProgramId);
    }
    if !accounts[2].is_signer {
        return Err(TokenError::MissingRequiredSignature);
    }
    Ok(())
}

/// Processes a token instruction in its wire form against the accounts
/// handed over with it.
pub fn process_instruction(program_id: &Identity, accounts: &[AccountMeta], instruction_data: &[u8]) -> (r:
    Result<(), TokenError>)
    ensures
        r == process_token(program_id@, accounts@, instruction_data@),
{
    match TokenInstruction::unpack(instruction_data) {
        Err(e) => Err(e),
        Ok(TokenInstruction::InitializeMint) => process_initialize_mint(program_id, accounts),
        Ok(TokenInstruction::MintTo { amount }) => process_mint_to(program_id, accounts, amount),
        Ok(TokenInstruction::Transfer { .. }) => Err(TokenError::InvalidInstructionData),
    }
}

} // verus!
