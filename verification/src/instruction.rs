//! The wire format of instructions: one tag byte and a payload of fixed width.

use vstd::prelude::*;
use crate::error::LedgerError;
use crate::identity::{Identity, WIRE_IDENTITY_LEN};

verus! {

/// Tag of an instruction that registers the target identity.
pub const TAG_INITIALIZE: u8 = 0;

/// Tag of an instruction that adds points to the caller's own account.
pub const TAG_ADD_POINTS: u8 = 1;

/// Tag of a daily check-in.
pub const TAG_CHECK_IN: u8 = 2;

/// Tag of an ad view.
pub const TAG_AD_VIEW: u8 = 3;

/// Tag of a referral.
pub const TAG_REFERRAL: u8 = 4;

/// Tag of a community credit granted by an administrator.
pub const TAG_COMMUNITY_CREDIT: u8 = 5;

/// One action on the ledger.
#[derive(Debug, PartialEq, Eq)]
pub enum Instruction {
    /// Register the target identity.
    Initialize,
    /// Add `amount` points to the caller's own account.
    AddPoints { amount: u64 },
    /// Check in at `timestamp`, in seconds.
    CheckIn { timestamp: u64 },
    /// View an ad at `timestamp`, in seconds.
    AdView { timestamp: u64 },
    /// Refer the identity `referred`, which gets an account of its own.
    Referral { referred: Identity },
    /// Credit `amount` points on an administrator's authority.
    CommunityCredit { amount: u64 },
}

/// What an instruction says, with the referred identity as a byte string.
pub enum InstructionView {
    /// Register the target identity.
    Initialize,
    /// Add `amount` points to the caller's own account.
    AddPoints { amount: u64 },
    /// Check in at `timestamp`, in seconds.
    CheckIn { timestamp: u64 },
    /// View an ad at `timestamp`, in seconds.
    AdView { timestamp: u64 },
    /// Refer the identity `referred`, which gets an account of its own.
    Referral { referred: Seq<u8> },
    /// Credit `amount` points on an administrator's authority.
    CommunityCredit { amount: u64 },
}

impl View for Instruction {
    type V = InstructionView;

    open spec fn view(&self) -> InstructionView {
        match *self {
            Instruction::Initialize => InstructionView::Initialize,
            Instruction::AddPoints { amount } => InstructionView::AddPoints { amount },
            Instruction::CheckIn { timestamp } => InstructionView::CheckIn { timestamp },
            Instruction::AdView { timestamp } => InstructionView::AdView { timestamp },
            Instruction::Referral { referred } => InstructionView::Referral { referred: referred@ },
            Instruction::CommunityCredit { amount } => InstructionView::CommunityCredit { amount },
        }
    }
}

/// The number that eight bytes spell in little-endian order.
pub open spec fn le_u64(bytes: Seq<u8>) -> u64
    recommends
        bytes.len() == 8,
{
    (bytes[0] as nat + 0x100 * (bytes[1] as nat) + 0x1_0000 * (bytes[2] as nat) + 0x100_0000 * (
    bytes[3] as nat) + 0x1_0000_0000 * (bytes[4] as nat) + 0x100_0000_0000 * (bytes[5] as nat)
        + 0x1_0000_0000_0000 * (bytes[6] as nat) + 0x100_0000_0000_0000 * (bytes[7] as nat)) as u64
}

/// The eight bytes that spell `value` in little-endian order.
pub open spec fn le_bytes(value: u64) -> Seq<u8> {
    seq![
        (value % 0x100) as u8,
        ((value / 0x100) % 0x100) as u8,
        ((value / 0x1_0000) % 0x100) as u8,
        ((value / 0x100_0000) % 0x100) as u8,
        ((value / 0x1_0000_0000) % 0x100) as u8,
        ((value / 0x100_0000_0000) % 0x100) as u8,
        ((value / 0x1_0000_0000_0000) % 0x100) as u8,
        ((value / 0x100_0000_0000_0000) % 0x100) as u8,
    ]
}

/// Dividing by a power of 256 is dividing by 256 that many times.
proof fn lemma_shift_bytes(value: int)
    requires
        0 <= value,
    ensures
        value / 0x1_0000 == (value / 0x100) / 0x100,
        value / 0x100_0000 == (value / 0x1_0000) / 0x100,
        value / 0x1_0000_0000 == (value / 0x100_0000) / 0x100,
        value / 0x100_0000_0000 == (value / 0x1_0000_0000) / 0x100,
        value / 0x1_0000_0000_0000 == (value / 0x100_0000_0000) / 0x100,
        value / 0x100_0000_0000_0000 == (value / 0x1_0000_0000_0000) / 0x100,
{
    assert(value / 0x1_0000 == (value / 0x100) / 0x100);
    assert(value / 0x100_0000 == (value / 0x1_0000) / 0x100);
    assert(value / 0x1_0000_0000 == (value / 0x100_0000) / 0x100);
    assert(value / 0x100_0000_0000 == (value / 0x1_0000_0000) / 0x100);
    assert(value / 0x1_0000_0000_0000 == (value / 0x100_0000_0000) / 0x100);
    assert(value / 0x100_0000_0000_0000 == (value / 0x1_0000_0000_0000) / 0x100);
}

/// Reading back the bytes of a number gives the number.
pub proof fn lemma_le_bytes_read_back(value: u64)
    ensures
        le_bytes(value).len() == 8,
        le_u64(le_bytes(value)) == value,
{
    let v = value as int;
    lemma_shift_bytes(v);
    let q1 = v / 0x100;
    let q2 = q1 / 0x100;
    let q3 = q2 / 0x100;
    let q4 = q3 / 0x100;
    let q5 = q4 / 0x100;
    let q6 = q5 / 0x100;
    let q7 = q6 / 0x100;
    assert(v == v % 0x100 + 0x100 * q1);
    assert(q1 == q1 % 0x100 + 0x100 * q2);
    assert(q2 == q2 % 0x100 + 0x100 * q3);
    assert(q3 == q3 % 0x100 + 0x100 * q4);
    assert(q4 == q4 % 0x100 + 0x100 * q5);
    assert(q5 == q5 % 0x100 + 0x100 * q6);
    assert(q6 == q6 % 0x100 + 0x100 * q7);
    assert(q7 == q7 % 0x100);
    let s = le_bytes(value);
    assert(s[0] == v % 0x100);
    assert(s[1] == q1 % 0x100);
    assert(s[2] == q2 % 0x100);
    assert(s[3] == q3 % 0x100);
    assert(s[4] == q4 % 0x100);
    assert(s[5] == q5 % 0x100);
    assert(s[6] == q6 % 0x100);
    assert(s[7] == q7 % 0x100);
}

/// Writing out the number that eight bytes spell gives the same bytes.
pub proof fn lemma_le_u64_write_back(bytes: Seq<u8>)
    requires
        bytes.len() == 8,
    ensures
        le_bytes(le_u64(bytes)) == bytes,
{
    let r7 = bytes[7] as int;
    let r6 = bytes[6] as int + 0x100 * r7;
    let r5 = bytes[5] as int + 0x100 * r6;
    let r4 = bytes[4] as int + 0x100 * r5;
    let r3 = bytes[3] as int + 0x100 * r4;
    let r2 = bytes[2] as int + 0x100 * r3;
    let r1 = bytes[1] as int + 0x100 * r2;
    let r0 = bytes[0] as int + 0x100 * r1;
    assert(le_u64(bytes) == r0);
    lemma_shift_bytes(r0);
    assert(r0 / 0x100 == r1 && r0 % 0x100 == bytes[0]);
    assert(r1 / 0x100 == r2 && r1 % 0x100 == bytes[1]);
    assert(r2 / 0x100 == r3 && r2 % 0x100 == bytes[2]);
    assert(r3 / 0x100 == r4 && r3 % 0x100 == bytes[3]);
    assert(r4 / 0x100 == r5 && r4 % 0x100 == bytes[4]);
    assert(r5 / 0x100 == r6 && r5 % 0x100 == bytes[5]);
    assert(r6 / 0x100 == r7 && r6 % 0x100 == bytes[6]);
    assert(le_bytes(le_u64(bytes)) =~= bytes);
}

/// Width in bytes of the payload that follows `tag`; `None` for a tag
/// that names no instruction.
pub open spec fn payload_width(tag: u8) -> Option<int> {
    if tag == TAG_INITIALIZE {
        Some(0int)
    } else if tag == TAG_ADD_POINTS || tag == TAG_CHECK_IN || tag == TAG_AD_VIEW || tag
        == TAG_COMMUNITY_CREDIT {
        Some(8int)
    } else if tag == TAG_REFERRAL {
        Some(32int)
    } else {
        None
    }
}

/// What a byte buffer decodes to. A buffer decodes when it starts with a
/// known tag and holds at least the payload of that tag; bytes after the
/// payload are not looked at.
pub open spec fn decode(bytes: Seq<u8>) -> Result<InstructionView, LedgerError> {
    if bytes.len() == 0 {
        Err(LedgerError::DecodeError)
    } else {
        match payload_width(bytes[0]) {
            None => Err(LedgerError::DecodeError),
            Some(width) => if bytes.len() < 1 + width {
                Err(LedgerError::DecodeError)
            } else {
                let payload = bytes.subrange(1, 1 + width);
                let tag = bytes[0];
                if tag == TAG_INITIALIZE {
                    Ok(InstructionView::Initialize)
                } else if tag == TAG_ADD_POINTS {
                    Ok(InstructionView::AddPoints { amount: le_u64(payload) })
                } else if tag == TAG_CHECK_IN {
                    Ok(InstructionView::CheckIn { timestamp: le_u64(payload) })
                } else if tag == TAG_AD_VIEW {
                    Ok(InstructionView::AdView { timestamp: le_u64(payload) })
                } else if tag == TAG_REFERRAL {
                    Ok(InstructionView::Referral { referred: payload })
                } else {
                    Ok(InstructionView::CommunityCredit { amount: le_u64(payload) })
                }
            },
        }
    }
}

/// The bytes that carry an instruction: its tag, then its payload.
pub open spec fn encode(instruction: InstructionView) -> Seq<u8> {
    match instruction {
        InstructionView::Initialize => seq![TAG_INITIALIZE],
        InstructionView::AddPoints { amount } => seq![TAG_ADD_POINTS] + le_bytes(amount),
        InstructionView::CheckIn { timestamp } => seq![TAG_CHECK_IN] + le_bytes(timestamp),
        InstructionView::AdView { timestamp } => seq![TAG_AD_VIEW] + le_bytes(timestamp),
        InstructionView::Referral { referred } => seq![TAG_REFERRAL] + referred,
        InstructionView::CommunityCredit { amount } => seq![TAG_COMMUNITY_CREDIT] + le_bytes(
            amount,
        ),
    }
}

/// Whether an instruction fits the wire format: a referred identity must
/// have the width that the format gives it.
pub open spec fn fits_wire(instruction: InstructionView) -> bool {
    instruction matches InstructionView::Referral { referred } ==> referred.len() == 32
}

/// Decoding the bytes of an instruction that fits the wire format gives
/// the instruction back, whatever follows those bytes.
pub proof fn lemma_decode_encode(instruction: InstructionView, rest: Seq<u8>)
    requires
        fits_wire(instruction),
    ensures
        decode(encode(instruction) + rest) == Ok::<InstructionView, LedgerError>(instruction),
{
    let bytes = encode(instruction) + rest;
    match instruction {
        InstructionView::Initialize => {},
        InstructionView::AddPoints { amount } => {
            lemma_le_bytes_read_back(amount);
            assert(bytes.subrange(1, 9) =~= le_bytes(amount));
        },
        InstructionView::CheckIn { timestamp } => {
            lemma_le_bytes_read_back(timestamp);
            assert(bytes.subrange(1, 9) =~= le_bytes(timestamp));
        },
        InstructionView::AdView { timestamp } => {
            lemma_le_bytes_read_back(timestamp);
            assert(bytes.subrange(1, 9) =~= le_bytes(timestamp));
        },
        InstructionView::Referral { referred } => {
            assert(bytes.subrange(1, 33) =~= referred);
        },
        InstructionView::CommunityCredit { amount } => {
            lemma_le_bytes_read_back(amount);
            assert(bytes.subrange(1, 9) =~= le_bytes(amount));
        },
    }
}

/// A buffer that decodes starts with the bytes of the instruction it
/// decodes to, and that instruction fits the wire format.
pub proof fn lemma_encode_decode(bytes: Seq<u8>)
    requires
        decode(bytes) is Ok,
    ensures
        fits_wire(decode(bytes)->Ok_0),
        encode(decode(bytes)->Ok_0).len() <= bytes.len(),
        bytes.subrange(0, encode(decode(bytes)->Ok_0).len() as int) == encode(
            decode(bytes)->Ok_0,
        ),
{
    let instruction = decode(bytes)->Ok_0;
    let width = payload_width(bytes[0])->Some_0;
    let payload = bytes.subrange(1, 1 + width);
    if width == 8 {
        lemma_le_u64_write_back(payload);
    }
    assert(bytes.subrange(0, encode(instruction).len() as int) =~= encode(instruction));
}

impl Clone for Instruction {
    fn clone(&self) -> (r: Instruction)
        ensures
            r@ == self@,
    {
        match self {
            Instruction::Initialize => Instruction::Initialize,
            Instruction::AddPoints { amount } => Instruction::AddPoints { amount: *amount },
            Instruction::CheckIn { timestamp } => Instruction::CheckIn { timestamp: *timestamp },
            Instruction::AdView { timestamp } => Instruction::AdView { timestamp: *timestamp },
            Instruction::Referral { referred } => Instruction::Referral {
                referred: referred.clone(),
            },
            Instruction::CommunityCredit { amount } => Instruction::CommunityCredit {
                amount: *amount,
            },
        }
    }
}

/// Reads the little-endian number in the eight bytes of `input` from `at` on.
pub(crate) fn read_u64(input: &[u8], at: usize) -> (r: u64)
    requires
        at + 8 <= input@.len(),
    ensures
        r == le_u64(input@.subrange(at as int, at + 8)),
{
    let b0: u64 = input[at] as u64;
    let b1: u64 = input[at + 1] as u64;
    let b2: u64 = input[at + 2] as u64;
    let b3: u64 = input[at + 3] as u64;
    let b4: u64 = input[at + 4] as u64;
    let b5: u64 = input[at + 5] as u64;
    let b6: u64 = input[at + 6] as u64;
    let b7: u64 = input[at + 7] as u64;
    b0 + 0x100 * b1 + 0x1_0000 * b2 + 0x100_0000 * b3 + 0x1_0000_0000 * b4 + 0x100_0000_0000 * b5
        + 0x1_0000_0000_0000 * b6 + 0x100_0000_0000_0000 * b7
}

/// Appends the eight little-endian bytes of `value` to `out`.
fn write_u64(out: &mut Vec<u8>, value: u64)
    ensures
        final(out)@ == old(out)@ + le_bytes(value),
{
    out.push((value % 0x100) as u8);
    out.push(((value / 0x100) % 0x100) as u8);
    out.push(((value / 0x1_0000) % 0x100) as u8);
    out.push(((value / 0x100_0000) % 0x100) as u8);
    out.push(((value / 0x1_0000_0000) % 0x100) as u8);
    out.push(((value / 0x100_0000_0000) % 0x100) as u8);
    out.push(((value / 0x1_0000_0000_0000) % 0x100) as u8);
    out.push(((value / 0x100_0000_0000_0000) % 0x100) as u8);
    assert(out@ =~= old(out)@ + le_bytes(value));
}

impl Instruction {
    /// Decodes an instruction from its wire form.
    ///
    /// Fails with `DecodeError` when `input` is empty, starts with an
    /// unknown tag or is shorter than the tag's payload requires.
    pub fn unpack(input: &[u8]) -> (r: Result<Instruction, LedgerError>)
        ensures
            match r {
                Ok(instruction) => decode(input@) == Ok::<InstructionView, LedgerError>(
                    instruction@,
                ),
                Err(e) => decode(input@) == Err::<InstructionView, LedgerError>(e),
            },
    {
        if input.len() == 0 {
            return Err(LedgerError::DecodeError);
        }
        let tag = input[0];
        if tag == TAG_INITIALIZE {
            Ok(Instruction::Initialize)
        } else if tag == TAG_REFERRAL {
            if input.len() < 1 + WIRE_IDENTITY_LEN {
                return Err(LedgerError::DecodeError);
            }
            let referred = Identity::from_slice(
                vstd::slice::slice_subrange(input, 1, 1 + WIRE_IDENTITY_LEN),
            );
            Ok(Instruction::Referral { referred })
        } else if tag == TAG_ADD_POINTS || tag == TAG_CHECK_IN || tag == TAG_AD_VIEW || tag
            == TAG_COMMUNITY_CREDIT {
            if input.len() < 9 {
                return Err(LedgerError::DecodeError);
            }
            let value = read_u64(input, 1);
            if tag == TAG_ADD_POINTS {
                Ok(Instruction::AddPoints { amount: value })
            } else if tag == TAG_CHECK_IN {
                Ok(Instruction::CheckIn { timestamp: value })
            } else if tag == TAG_AD_VIEW {
                Ok(Instruction::AdView { timestamp: value })
            } else {
                Ok(Instruction::CommunityCredit { amount: value })
            }
        } else {
            Err(LedgerError::DecodeError)
        }
    }

    /// Encodes the instruction in its wire form.
    ///
    /// Fails with `InvalidArgument` for a referral whose referred identity
    /// does not have the width that the wire format gives it.
    pub fn pack(&self) -> (r: Result<Vec<u8>, LedgerError>)
        ensures
            match r {
                Ok(bytes) => fits_wire(self@) && bytes@ == encode(self@),
                Err(e) => !fits_wire(self@) && e == LedgerError::InvalidArgument,
            },
    {
        let mut out: Vec<u8> = Vec::new();
        match self {
            Instruction::Initialize => {
                out.push(TAG_INITIALIZE);
            },
            Instruction::AddPoints { amount } => {
                out.push(TAG_ADD_POINTS);
                write_u64(&mut out, *amount);
            },
            Instruction::CheckIn { timestamp } => {
                out.push(TAG_CHECK_IN);
                write_u64(&mut out, *timestamp);
            },
            Instruction::AdView { timestamp } => {
                out.push(TAG_AD_VIEW);
                write_u64(&mut out, *timestamp);
            },
            Instruction::Referral { referred } => {
                if referred.len() != WIRE_IDENTITY_LEN {
                    return Err(LedgerError::InvalidArgument);
                }
                out.push(TAG_REFERRAL);
                out.extend_from_slice(referred.as_bytes());
            },
            Instruction::CommunityCredit { amount } => {
                out.push(TAG_COMMUNITY_CREDIT);
                write_u64(&mut out, *amount);
            },
        }
        assert(out@ =~= encode(self@));
        Ok(out)
    }
}

} // verus!
