//! The QR code that shows an account's number and points.

use vstd::prelude::*;
use crate::account::{AccountState, UserAccount};
use crate::engine::LedgerEngine;
use crate::error::LedgerError;
use crate::identity::Identity;
use crate::text::{ascii, decimal, lemma_decimal_len, push_ascii, push_decimal, zero_padded};

verus! {

/// Least number of digits in the label of an account number.
pub const LABEL_DIGITS: usize = 5;

/// The label of an account number: a hash sign and the number in at
/// least five digits.
pub open spec fn label_spec(account_number: u32) -> Seq<u8> {
    ascii("#"@) + zero_padded(account_number as nat, LABEL_DIGITS as nat)
}

/// The text that the QR code of an account carries: its number's label
/// and its points.
pub open spec fn payload_spec(account_number: u32, points: u64) -> Seq<u8> {
    ascii("user_number="@) + label_spec(account_number) + ascii("&points="@) + decimal(
        points as nat,
    )
}

/// The label of an account number, such as `#00042`.
pub fn user_number_label(account_number: u32) -> (r: Vec<u8>)
    ensures
        r@ == label_spec(account_number),
{
    let mut out: Vec<u8> = Vec::new();
    proof {
        reveal_strlit("#");
    }
    push_ascii(&mut out, "#");
    push_decimal(&mut out, account_number as u64, LABEL_DIGITS);
    assert(out@ =~= label_spec(account_number));
    out
}

/// The text that the QR code of an account with this number and these
/// points carries.
pub fn qr_payload(account_number: u32, points: u64) -> (r: Vec<u8>)
    ensures
        r@ == payload_spec(account_number, points),
{
    let mut out: Vec<u8> = Vec::new();
    proof {
        reveal_strlit("user_number=");
        reveal_strlit("#");
        reveal_strlit("&points=");
    }
    push_ascii(&mut out, "user_number=");
    push_ascii(&mut out, "#");
    push_decimal(&mut out, account_number as u64, LABEL_DIGITS);
    push_ascii(&mut out, "&points=");
    push_decimal(&mut out, points, 0);
    proof {
        lemma_decimal_len(points as nat);
        assert(zero_padded(points as nat, 0) =~= decimal(points as nat));
        assert(out@ =~= payload_spec(account_number, points));
    }
    out
}

/// The SVG picture, as bytes, of the QR code that `qrcode` makes of
/// `data`; `None` for data of which it makes no code.
pub uninterp spec fn qr_svg(data: Seq<u8>) -> Option<Seq<u8>>;

/// The text that `base64` makes of `data` with its standard alphabet.
pub uninterp spec fn base64_text(data: Seq<u8>) -> Seq<char>;

/// Has `qrcode::QrCode::new` make the QR code of `data`, at the medium
/// error correction level and in the smallest size that holds the data,
/// and has its SVG renderer draw the code with the renderer's own
/// settings. The result is the picture as bytes, or `None` where no code
/// could be made, for instance because the data is too long. The
/// contract names the result and claims nothing else about it.
#[verifier::external_body]
fn render_qr_svg(data: &[u8]) -> (r: Option<Vec<u8>>)
    ensures
        match r {
            Some(picture) => qr_svg(data@) == Some(picture@),
            None => qr_svg(data@) is None,
        },
{
    match qrcode::QrCode::new(data) {
        Ok(code) => Some(code.render::<qrcode::render::svg::Color>().build().into_bytes()),
        Err(_) => None,
    }
}

/// Has `base64::encode` write `data` in base64, standard alphabet with
/// padding. The contract names the result and claims nothing else about
/// it.
#[allow(deprecated)]
#[verifier::external_body]
fn base64_encode(data: &[u8]) -> (r: String)
    ensures
        r@ == base64_text(data@),
{
    base64::encode(data)
}

/// What is handed out for the picture of a QR code: its base64 text, or
/// `InvalidArgument` where no picture could be drawn.
pub open spec fn qr_image_spec(picture: Option<Seq<u8>>) -> Result<Seq<char>, LedgerError> {
    match picture {
        Some(bytes) => Ok(base64_text(bytes)),
        None => Err(LedgerError::InvalidArgument),
    }
}

/// The QR code that is handed out for an account: its picture, drawn
/// from the account's number and points, in base64.
pub open spec fn qr_code_spec(account: AccountState) -> Result<Seq<char>, LedgerError> {
    qr_image_spec(qr_svg(payload_spec(account.account_number, account.points)))
}

/// Turns the picture of a QR code into what is handed out: the picture
/// in base64, or `InvalidArgument` where there is none.
pub fn encode_qr_image(picture: Option<Vec<u8>>) -> (r: Result<String, LedgerError>)
    ensures
        match r {
            Ok(text) => picture matches Some(bytes) && text@ == base64_text(bytes@),
            Err(e) => picture is None && e == LedgerError::InvalidArgument,
        },
{
    match picture {
        Some(bytes) => Ok(base64_encode(bytes.as_slice())),
        None => Err(LedgerError::InvalidArgument),
    }
}

/// The QR code of `account` as an SVG picture in base64.
///
/// Fails with `InvalidArgument` where no QR code can be made of the
/// account's number and points.
pub fn account_qr_code(account: &UserAccount) -> (r: Result<String, LedgerError>)
    ensures
        match r {
            Ok(text) => qr_code_spec(account@) == Ok::<Seq<char>, LedgerError>(text@),
            Err(e) => qr_code_spec(account@) == Err::<Seq<char>, LedgerError>(e),
        },
{
    let payload = qr_payload(account.account_number(), account.points());
    encode_qr_image(render_qr_svg(payload.as_slice()))
}

/// The QR code of the account of `user` as an SVG picture in base64.
///
/// Fails with `NotFound` when the user has no account, and with
/// `InvalidArgument` where no QR code can be made of the account's
/// number and points.
pub fn generate_qr_code(ledger: &LedgerEngine, user: &Identity) -> (r: Result<String, LedgerError>)
    ensures
        match ledger@.get(user@) {
            None => r == Err::<String, LedgerError>(LedgerError::NotFound),
            Some(account) => match r {
                Ok(text) => qr_code_spec(account) == Ok::<Seq<char>, LedgerError>(text@),
                Err(e) => qr_code_spec(account) == Err::<Seq<char>, LedgerError>(e),
            },
        },
{
    match ledger.get(user) {
        Some(account) => account_qr_code(account),
        None => Err(LedgerError::NotFound),
    }
}

} // verus!
