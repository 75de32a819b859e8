//! APCI frame classification (I-, S- and U-frames) and frame display.
use crate::text;
use crate::types;
use crate::types::{AsduTypeId, CauseOfTransmission};
use vstd::prelude::*;

verus! {

/// IEC 104 APCI frame types.
#[derive(Debug, Clone, Copy, PartialEq, Eq, Structural)]
pub enum FrameType {
    /// I-frame (Information transfer)
    IFrame { send_seq: u16, recv_seq: u16, asdu_type: u8, cause: u8, common_address: u16 },
    /// S-frame (Supervisory)
    SFrame { recv_seq: u16 },
    /// U-frame (Unnumbered)
    UFrame { kind: UFrameKind },
}

/// U-frame subtypes.
#[derive(Debug, Clone, Copy, PartialEq, Eq, Structural)]
pub enum UFrameKind {
    StartDtAct,
    StartDtCon,
    StopDtAct,
    StopDtCon,
    TestFrAct,
    TestFrCon,
}

/// Errors in classifying an APCI frame.
#[derive(Debug, Clone, Copy, PartialEq, Eq, Structural)]
pub enum FrameError {
    /// frame too short (need at least 6 bytes)
    TooShort,
    /// invalid start byte (expected 0x68)
    InvalidStartByte(u8),
    /// unknown U-frame type
    UnknownUFrame(u8),
    /// unknown frame type
    UnknownFrameType(u8),
}

/// The U-frame kind named by a first control octet, if any.
pub open spec fn u_kind_of(ctrl1: u8) -> Option<UFrameKind> {
    if ctrl1 == 0x07 {
        Some(UFrameKind::StartDtAct)
    } else if ctrl1 == 0x0B {
        Some(UFrameKind::StartDtCon)
    } else if ctrl1 == 0x13 {
        Some(UFrameKind::StopDtAct)
    } else if ctrl1 == 0x23 {
        Some(UFrameKind::StopDtCon)
    } else if ctrl1 == 0x43 {
        Some(UFrameKind::TestFrAct)
    } else if ctrl1 == 0x83 {
        Some(UFrameKind::TestFrCon)
    } else {
        None
    }
}

/// The first control octet that encodes a U-frame kind.
pub open spec fn u_kind_code(k: UFrameKind) -> u8 {
    match k {
        UFrameKind::StartDtAct => 0x07,
        UFrameKind::StartDtCon => 0x0B,
        UFrameKind::StopDtAct => 0x13,
        UFrameKind::StopDtCon => 0x23,
        UFrameKind::TestFrAct => 0x43,
        UFrameKind::TestFrCon => 0x83,
    }
}

/// The display name of a U-frame kind.
pub open spec fn u_kind_name(k: UFrameKind) -> Seq<char> {
    match k {
        UFrameKind::StartDtAct => "STARTDT ACT"@,
        UFrameKind::StartDtCon => "STARTDT CON"@,
        UFrameKind::StopDtAct => "STOPDT ACT"@,
        UFrameKind::StopDtCon => "STOPDT CON"@,
        UFrameKind::TestFrAct => "TESTFR ACT"@,
        UFrameKind::TestFrCon => "TESTFR CON"@,
    }
}

/// A 15-bit sequence number carried in two control octets (low bit of the
/// first octet excluded).
pub open spec fn seq_number(lo: u8, hi: u8) -> u16 {
    (lo / 2 + hi * 128) as u16
}

/// What `parse_apci` makes of a byte sequence.
pub open spec fn spec_parse_apci(d: Seq<u8>) -> Result<FrameType, FrameError> {
    if d.len() < 6 {
        Err(FrameError::TooShort)
    } else if d[0] != 0x68 {
        Err(FrameError::InvalidStartByte(d[0]))
    } else if d[2] % 2 == 0 {
        let i10 = if d.len() - 1 < 10 { d.len() - 1 } else { 10 };
        let i11 = if d.len() - 1 < 11 { d.len() - 1 } else { 11 };
        Ok(
            FrameType::IFrame {
                send_seq: seq_number(d[2], d[3]),
                recv_seq: seq_number(d[4], d[5]),
                asdu_type: if d.len() >= 10 { d[6] } else { 0 },
                cause: if d.len() >= 10 { d[8] } else { 0 },
                common_address: if d.len() >= 10 { (d[i10] + 256 * d[i11]) as u16 } else { 0 },
            },
        )
    } else if d[2] % 4 == 1 {
        Ok(FrameType::SFrame { recv_seq: seq_number(d[4], d[5]) })
    } else if d[2] % 4 == 3 {
        match u_kind_of(d[2]) {
            Some(k) => Ok(FrameType::UFrame { kind: k }),
            None => Err(FrameError::UnknownUFrame(d[2])),
        }
    } else {
        Err(FrameError::UnknownFrameType(d[2]))
    }
}

impl UFrameKind {
    /// The display name, e.g. `"STARTDT ACT"`.
    pub fn name(&self) -> (r: &'static str)
        ensures
            r@ == u_kind_name(*self),
    {
        match self {
            UFrameKind::StartDtAct => "STARTDT ACT",
            UFrameKind::StartDtCon => "STARTDT CON",
            UFrameKind::StopDtAct => "STOPDT ACT",
            UFrameKind::StopDtCon => "STOPDT CON",
            UFrameKind::TestFrAct => "TESTFR ACT",
            UFrameKind::TestFrCon => "TESTFR CON",
        }
    }
}

fn sequence_number(lo: u8, hi: u8) -> (r: u16)
    ensures
        r == seq_number(lo, hi),
{
    let r = ((lo as u16) >> 1) | ((hi as u16) << 7);
    assert(((lo as u16) >> 1) | ((hi as u16) << 7) == (lo / 2 + hi * 128) as u16) by (bit_vector);
    r
}

/// Parse an APCI frame from raw bytes.
///
/// IEC 104 frame format:
/// - Byte 0: Start byte (0x68)
/// - Byte 1: Length (of remaining bytes)
/// - Bytes 2-5: Control fields (determine frame type)
/// - Bytes 6+: ASDU (for I-frames only)
pub fn parse_apci(data: &[u8]) -> (r: Result<FrameType, FrameError>)
    ensures
        r == spec_parse_apci(data@),
{
    if data.len() < 6 {
        return Err(FrameError::TooShort);
    }
    if data[0] != 0x68 {
        return Err(FrameError::InvalidStartByte(data[0]));
    }
    let ctrl1 = data[2];
    let ctrl2 = data[3];
    let ctrl3 = data[4];
    let ctrl4 = data[5];
    assert((ctrl1 & 0x01 == 0) == (ctrl1 % 2 == 0)) by (bit_vector);
    assert((ctrl1 & 0x03 == 0x01) == (ctrl1 % 4 == 1)) by (bit_vector);
    assert((ctrl1 & 0x03 == 0x03) == (ctrl1 % 4 == 3)) by (bit_vector);
    if ctrl1 & 0x01 == 0 {
        let send_seq = sequence_number(ctrl1, ctrl2);
        let recv_seq = sequence_number(ctrl3, ctrl4);
        let (asdu_type, cause, common_address) = if data.len() >= 10 {
            let last = data.len() - 1;
            let i10 = if last < 10 { last } else { 10 };
            let i11 = if last < 11 { last } else { 11 };
            let ca = (data[i10] as u16) | ((data[i11] as u16) << 8);
            let lo = data[i10];
            let hi = data[i11];
            assert((lo as u16) | ((hi as u16) << 8) == (lo + 256 * hi) as u16) by (bit_vector);
            (data[6], data[8], ca)
        } else {
            (0u8, 0u8, 0u16)
        };
        Ok(FrameType::IFrame { send_seq, recv_seq, asdu_type, cause, common_address })
    } else if ctrl1 & 0x03 == 0x01 {
        let recv_seq = sequence_number(ctrl3, ctrl4);
        Ok(FrameType::SFrame { recv_seq })
    } else if ctrl1 & 0x03 == 0x03 {
        let kind = match ctrl1 {
            0x07 => UFrameKind::StartDtAct,
            0x0B => UFrameKind::StartDtCon,
            0x13 => UFrameKind::StopDtAct,
            0x23 => UFrameKind::StopDtCon,
            0x43 => UFrameKind::TestFrAct,
            0x83 => UFrameKind::TestFrCon,
            _ => {
                return Err(FrameError::UnknownUFrame(ctrl1));
            },
        };
        Ok(FrameType::UFrame { kind })
    } else {
        Err(FrameError::UnknownFrameType(ctrl1))
    }
}

/// The label of an ASDU type code: its mnemonic, or `Type<n>` when unknown.
pub open spec fn type_label(t: u8) -> Seq<char> {
    match types::asdu_of(t) {
        Some(a) => types::asdu_name(a),
        None => "Type"@ + text::dec_str(t as nat),
    }
}

/// The label of a cause code: its mnemonic, or `CoT<n>` when unknown.
pub open spec fn cause_label(c: u8) -> Seq<char> {
    match types::cause_of(c) {
        Some(a) => types::cause_name(a),
        None => "CoT"@ + text::dec_str(c as nat),
    }
}

/// The one-line summary of a frame.
pub open spec fn frame_summary(f: FrameType) -> Seq<char> {
    match f {
        FrameType::IFrame { send_seq, recv_seq, asdu_type, cause, common_address } => "I [S="@
            + text::dec_str(send_seq as nat) + " R="@ + text::dec_str(recv_seq as nat) + "] "@
            + type_label(asdu_type) + " "@ + cause_label(cause) + " CA="@ + text::dec_str(
            common_address as nat,
        ),
        FrameType::SFrame { recv_seq } => "S [R="@ + text::dec_str(recv_seq as nat) + "]"@,
        FrameType::UFrame { kind } => "U "@ + u_kind_name(kind),
    }
}

pub(crate) fn append_type_label(s: &mut String, t: u8)
    ensures
        final(s)@ == old(s)@ + type_label(t),
{
    match AsduTypeId::from_u8(t) {
        Some(a) => s.append(a.name()),
        None => {
            s.append("Type");
            text::push_dec(s, t as u64);
        },
    }
    assert(final(s)@ =~= old(s)@ + type_label(t));
}

fn append_cause_label(s: &mut String, c: u8)
    ensures
        final(s)@ == old(s)@ + cause_label(c),
{
    match CauseOfTransmission::from_u8(c) {
        Some(a) => s.append(a.name()),
        None => {
            s.append("CoT");
            text::push_dec(s, c as u64);
        },
    }
    assert(final(s)@ =~= old(s)@ + cause_label(c));
}

/// Format a frame summary for display.
pub fn format_frame_summary(frame: &FrameType) -> (r: String)
    ensures
        r@ == frame_summary(*frame),
{
    let mut s = String::new();
    match frame {
        FrameType::IFrame { send_seq, recv_seq, asdu_type, cause, common_address } => {
            s.append("I [S=");
            text::push_dec(&mut s, *send_seq as u64);
            s.append(" R=");
            text::push_dec(&mut s, *recv_seq as u64);
            s.append("] ");
            append_type_label(&mut s, *asdu_type);
            s.append(" ");
            append_cause_label(&mut s, *cause);
            s.append(" CA=");
            text::push_dec(&mut s, *common_address as u64);
        },
        FrameType::SFrame { recv_seq } => {
            s.append("S [R=");
            text::push_dec(&mut s, *recv_seq as u64);
            s.append("]");
        },
        FrameType::UFrame { kind } => {
            s.append("U ");
            s.append(kind.name());
        },
    }
    assert(s@ =~= frame_summary(*frame));
    s
}

/// Format raw bytes as hex string.
pub fn format_hex(data: &[u8]) -> (r: String)
    ensures
        r@ == text::hex_join(data@),
{
    text::hex_bytes(data)
}

/// Sequence numbers survive their encoding: an I-frame whose control
/// octets carry send number `n` and receive number `m` (each below 32768,
/// written as `(x mod 128) * 2` in the low octet and `x / 128` in the high
/// one) parses with exactly those numbers, and an S-frame whose receive
/// octets carry `m` parses with receive number `m`.
pub proof fn lemma_sequence_numbers_roundtrip(d: Seq<u8>, n: int, m: int)
    requires
        d.len() >= 6,
        d[0] == 0x68,
        0 <= n < 32768,
        0 <= m < 32768,
        d[4] == (m % 128) * 2,
        d[5] == m / 128,
    ensures
        d[2] == (n % 128) * 2 && d[3] == n / 128 ==> (spec_parse_apci(d) matches Ok(
            FrameType::IFrame { send_seq, recv_seq, .. },
        ) && send_seq == n && recv_seq == m),
        d[2] == 1 ==> spec_parse_apci(d) == Ok::<FrameType, FrameError>(
            FrameType::SFrame { recv_seq: m as u16 },
        ),
{
    assert((m % 128) * 2 / 2 + (m / 128) * 128 == m);
    assert((n % 128) * 2 / 2 + (n / 128) * 128 == n);
}

} // verus!
