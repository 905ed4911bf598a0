//! The metadata of the token and the rules for creating and changing it.

use vstd::prelude::*;
use crate::identity::Identity;
use crate::token_program::{AccountMeta, TokenError};

verus! {

/// Name, symbol and the rest of what describes the token.
#[derive(Debug)]
pub struct TokenMetadata {
    /// Name of the token.
    pub name: String,
    /// Ticker symbol of the token.
    pub symbol: String,
    /// Where the icon and further metadata are found.
    pub uri: String,
    /// Decimal places of one token.
    pub decimals: u8,
    /// The key that may change the metadata.
    pub update_authority: Identity,
}

/// The metadata as a mathematical record.
pub struct TokenMetadataView {
    /// Name of the token.
    pub name: Seq<char>,
    /// Ticker symbol of the token.
    pub symbol: Seq<char>,
    /// Where the icon and further metadata are found.
    pub uri: Seq<char>,
    /// Decimal places of one token.
    pub decimals: u8,
    /// The key that may change the metadata.
    pub update_authority: Seq<u8>,
}

impl View for TokenMetadata {
    type V = TokenMetadataView;

    open spec fn view(&self) -> TokenMetadataView {
        TokenMetadataView {
            name: self.name@,
            symbol: self.symbol@,
            uri: self.uri@,
            decimals: self.decimals,
            update_authority: self.update_authority@,
        }
    }
}

/// Number of accounts that the creation of metadata reads.
pub const CREATE_ACCOUNTS: usize = 6;

/// Number of accounts that a change of metadata reads.
pub const UPDATE_ACCOUNTS: usize = 2;

/// The metadata that a creation writes. Of the six accounts the third
/// is the mint authority and the fourth the payer; both must have
/// signed, and the mint authority becomes the update authority.
pub open spec fn created_metadata(
    accounts: Seq<AccountMeta>,
    name: Seq<char>,
    symbol: Seq<char>,
    uri: Seq<char>,
    decimals: u8,
) -> Result<TokenMetadataView, TokenError> {
    if accounts.len() < CREATE_ACCOUNTS {
        Err(TokenError::NotEnoughAccountKeys)
    } else if !accounts[2].is_signer || !accounts[3].is_signer {
        Err(TokenError::MissingRequiredSignature)
    } else {
        Ok(TokenMetadataView { name, symbol, uri, decimals, update_authority: accounts[2].key@ })
    }
}

/// The given text where there is one, the kept text otherwise.
pub open spec fn replaced(kept: Seq<char>, given: Option<String>) -> Seq<char> {
    match given {
        Some(text) => text@,
        None => kept,
    }
}

/// The metadata that a change writes. Of the two accounts the first
/// holds the metadata and must belong to the program, the second is the
/// update authority and must have signed. The stored metadata must be
/// readable and name that authority. Each of name, symbol and URI is
/// replaced where a new value is given, and kept otherwise.
pub open spec fn updated_metadata(
    program_id: Seq<u8>,
    accounts: Seq<AccountMeta>,
    stored: Option<TokenMetadata>,
    name: Option<String>,
    symbol: Option<String>,
    uri: Option<String>,
) -> Result<TokenMetadataView, TokenError> {
    if accounts.len() < UPDATE_ACCOUNTS {
        Err(TokenError::NotEnoughAccountKeys)
    } else if accounts[0].owner@ != program_id {
        Err(TokenError::IncorrectProgramId)
    } else if !accounts[1].is_signer {
        Err(TokenError::MissingRequiredSignature)
    } else {
        match stored {
            None => Err(TokenError::UnreadableAccountData),
            Some(metadata) => if metadata.update_authority@ != accounts[1].key@ {
                Err(TokenError::InvalidAccountData)
            } else {
                Ok(
                    TokenMetadataView {
                        name: replaced(metadata.name@, name),
                        symbol: replaced(metadata.symbol@, symbol),
                        uri: replaced(metadata.uri@, uri),
                        decimals: metadata.decimals,
                        update_authority: metadata.update_authority@,
                    },
                )
            },
        }
    }
}

/// Decides on the creation of the token's metadata and builds the record
/// to store.
///
/// Fails with `NotEnoughAccountKeys` on fewer than six accounts and with
/// `MissingRequiredSignature` unless the mint authority and the payer
/// have signed.
pub fn create_metadata_account(
    accounts: &[AccountMeta],
    name: String,
    symbol: String,
    uri: String,
    decimals: u8,
) -> (r: Result<TokenMetadata, TokenError>)
    ensures
        match r {
            Ok(metadata) => created_metadata(accounts@, name@, symbol@, uri@, decimals) == Ok::<
                TokenMetadataView,
                TokenError,
            >(metadata@),
            Err(e) => created_metadata(accounts@, name@, symbol@, uri@, decimals) == Err::<
                TokenMetadataView,
                TokenError,
            >(e),
        },
{
    if accounts.len() < CREATE_ACCOUNTS {
        return Err(TokenError::NotEnoughAccountKeys);
    }
    if !accounts[2].is_signer || !accounts[3].is_signer {
        return Err(TokenError::MissingRequiredSignature);
    }
    Ok(TokenMetadata { name, symbol, uri, decimals, update_authority: accounts[2].key.clone() })
}

/// Decides on a change of the token's metadata and builds the record to
/// store. `stored` is the metadata read from the first account, `None`
/// where it cannot be read.
///
/// Fails with `NotEnoughAccountKeys` on fewer than two accounts, with
/// `IncorrectProgramId` when the program does not own the metadata
/// account, with `MissingRequiredSignature` when the update authority
/// has not signed, with `UnreadableAccountData` when there is no stored
/// metadata, and with `InvalidAccountData` when the stored metadata
/// names another authority.
pub fn update_metadata(
    program_id: &Identity,
    accounts: &[AccountMeta],
    stored: Option<TokenMetadata>,
    name: Option<String>,
    symbol: Option<String>,
    uri: Option<String>,
) -> (r: Result<TokenMetadata, TokenError>)
    ensures
        match r {
            Ok(metadata) => updated_metadata(program_id@, accounts@, stored, name, symbol, uri)
                == Ok::<TokenMetadataView, TokenError>(metadata@),
            Err(e) => updated_metadata(program_id@, accounts@, stored, name, symbol, uri) == Err::<
                TokenMetadataView,
                TokenError,
            >(e),
        },
{
    if accounts.len() < UPDATE_ACCOUNTS {
        return Err(TokenError::NotEnoughAccountKeys);
    }
    if !accounts[0].owner.same(program_id) {
        return Err(TokenError::IncorrectProgramId);
    }
    if !accounts[1].is_signer {
        return Err(TokenError::MissingRequiredSignature);
    }
    let mut metadata = match stored {
        Some(metadata) => metadata,
        None => {
            return Err(TokenError::UnreadableAccountData);
        },
    };
    if !metadata.update_authority.same(&accounts[1].key) {
        return Err(TokenError::InvalidAccountData);
    }
    if let Some(new_name) = name {
        metadata.name = new_name;
    }
    if let Some(new_symbol) = symbol {
        metadata.symbol = new_symbol;
    }
    if let Some(new_uri) = uri {
        metadata.uri = new_uri;
    }
    Ok(metadata)
}

} // verus!
