//! What the service tells about the token, and the exchange of points
//! for tokens, which is switched off.

use vstd::prelude::*;
use vstd::utf8::encode_utf8;
use crate::error::LedgerError;
use crate::identity::Identity;
use crate::text::{ascii, grouped, push_ascii, push_grouped};
use crate::token_program::{TOKEN_DECIMALS, TOKEN_NAME, TOKEN_SYMBOL, TOKEN_TOTAL_SUPPLY};

verus! {

/// The basic facts about the token.
#[derive(Debug)]
pub struct TokenInfo {
    /// Name of the token.
    pub name: String,
    /// Ticker symbol of the token.
    pub symbol: String,
    /// Decimal places of one token.
    pub decimals: u8,
    /// Total supply in the smallest unit.
    pub total_supply: u64,
    /// Address of the program, or a note that it is not deployed.
    pub contract_address: String,
}

impl TokenInfo {
    /// The facts about the token whose program lives at `contract_address`.
    pub fn new(contract_address: String) -> (r: TokenInfo)
        ensures
            r.name@ == TOKEN_NAME@,
            r.symbol@ == TOKEN_SYMBOL@,
            r.decimals == TOKEN_DECIMALS,
            r.total_supply == TOKEN_TOTAL_SUPPLY,
            r.contract_address == contract_address,
    {
        TokenInfo {
            name: TOKEN_NAME.to_owned(),
            symbol: TOKEN_SYMBOL.to_owned(),
            decimals: TOKEN_DECIMALS,
            total_supply: TOKEN_TOTAL_SUPPLY,
            contract_address,
        }
    }
}

/// The total supply as text: decimal digits in groups of three with
/// commas between them, as ASCII bytes.
pub fn format_supply(total_supply: u64) -> (r: Vec<u8>)
    ensures
        r@ == grouped(total_supply as nat),
{
    let mut out: Vec<u8> = Vec::new();
    push_grouped(&mut out, total_supply);
    out
}

/// The address of the block explorer's page for `contract_address`, as
/// UTF-8 bytes: the explorer of the main network for the network
/// `mainnet`, that of the development network for every other.
pub open spec fn explorer_url_spec(network: Seq<char>, contract_address: Seq<char>) -> Seq<u8> {
    ascii(
        if network == "mainnet"@ {
            "https://explorer.solana.com"@
        } else {
            "https://explorer.solana.com/?cluster=devnet"@
        },
    ) + ascii("/address/"@) + encode_utf8(contract_address)
}

/// Builds the address of the block explorer's page for
/// `contract_address` on `network`.
pub fn explorer_url(network: &str, contract_address: &str) -> (r: Vec<u8>)
    ensures
        r@ == explorer_url_spec(network@, contract_address@),
{
    let mut out: Vec<u8> = Vec::new();
    proof {
        reveal_strlit("https://explorer.solana.com");
        reveal_strlit("https://explorer.solana.com/?cluster=devnet");
        reveal_strlit("/address/");
    }
    if network.to_owned() == "mainnet".to_owned() {
        push_ascii(&mut out, "https://explorer.solana.com");
    } else {
        push_ascii(&mut out, "https://explorer.solana.com/?cluster=devnet");
    }
    push_ascii(&mut out, "/address/");
    out.extend_from_slice(contract_address.as_bytes());
    assert(out@ =~= explorer_url_spec(network@, contract_address@));
    out
}

/// The facts about the token together with what is shown of them.
#[derive(Debug)]
pub struct TokenDetails {
    /// The basic facts.
    pub info: TokenInfo,
    /// The total supply as text, in groups of three digits.
    pub formatted_supply: Vec<u8>,
    /// The address of the block explorer's page for the program.
    pub explorer_url: Vec<u8>,
}

/// Puts together what the service tells about the token on `network`:
/// the facts as they are, the total supply as grouped digits, and the
/// address of the explorer's page for the program.
pub fn get_token_info(info: &TokenInfo, network: &str) -> (r: TokenDetails)
    ensures
        r.info == *info,
        r.formatted_supply@ == grouped(info.total_supply as nat),
        r.explorer_url@ == explorer_url_spec(network@, info.contract_address@),
{
    TokenDetails {
        info: TokenInfo {
            name: info.name.clone(),
            symbol: info.symbol.clone(),
            decimals: info.decimals,
            total_supply: info.total_supply,
            contract_address: info.contract_address.clone(),
        },
        formatted_supply: format_supply(info.total_supply),
        explorer_url: explorer_url(network, info.contract_address.as_str()),
    }
}

/// A request to exchange points of a user for tokens.
#[derive(Debug)]
pub struct ExchangeRequest {
    /// The user whose points are to be exchanged.
    pub user_id: Identity,
    /// The credential on which the exchange is asked for.
    pub admin_key: Identity,
    /// The points to exchange.
    pub points_amount: u64,
}

/// Answers a request to exchange points for tokens. The exchange is
/// switched off: every request is refused with `Unauthorized`, whoever
/// asks and for whatever amount.
pub fn exchange_points_to_token(request: &ExchangeRequest) -> (r: Result<u64, LedgerError>)
    ensures
        r == Err::<u64, LedgerError>(LedgerError::Unauthorized),
{
    Err(LedgerError::Unauthorized)
}

} // verus!
