use vstd::prelude::*;
use vstd::bytes::*;
use vstd::slice::slice_subrange;
use crate::error::TrustError;
use crate::identity::Identity;

verus! {

/// The instruction envelope: a tagged union selecting one of the three
/// operations, decoded from the host-delivered payload. On the wire, a
/// leading 4-byte little-endian tag selects the variant (0, 1 or 2 in
/// declaration order), followed by the fields in order, each fixed-width
/// little-endian with no padding.
#[derive(Clone, Debug)]
pub enum TrustInstruction {
    /// Tag 0: create and fund a trust record; the initial score travels as
    /// its raw 8-byte pattern.
    InitializeCar { initial_trust_bits: u64 },
    /// Tag 1: one car reports the outcome of a message from another; two
    /// 32-byte identities, then a 1-byte boolean (0 or 1).
    ReportMessageOutcome { reporter: Identity, message_sender: Identity, is_true: bool },
    /// Tag 2: recompute every known car's score; no fields.
    UpdateTrustScores,
}

/// The mathematical image of an instruction: identities as byte sequences.
pub enum InstructionView {
    InitializeCar { initial_trust_bits: u64 },
    ReportMessageOutcome { reporter: Seq<u8>, message_sender: Seq<u8>, is_true: bool },
    UpdateTrustScores,
}

impl View for TrustInstruction {
    type V = InstructionView;

    open spec fn view(&self) -> InstructionView {
        match self {
            TrustInstruction::InitializeCar { initial_trust_bits } => {
                InstructionView::InitializeCar { initial_trust_bits: *initial_trust_bits }
            },
            TrustInstruction::ReportMessageOutcome { reporter, message_sender, is_true } => {
                InstructionView::ReportMessageOutcome {
                    reporter: reporter@,
                    message_sender: message_sender@,
                    is_true: *is_true,
                }
            },
            TrustInstruction::UpdateTrustScores => InstructionView::UpdateTrustScores,
        }
    }
}

impl TrustInstruction {
    /// Identities carried by an instruction hold exactly 32 bytes.
    pub open spec fn wf(self) -> bool {
        match self {
            TrustInstruction::ReportMessageOutcome { reporter, message_sender, .. } => {
                reporter@.len() == 32 && message_sender@.len() == 32
            },
            _ => true,
        }
    }
}

/// What a payload decodes to, if anything: the whole wire format in one
/// place. A payload is malformed when it is shorter than the tag, carries an
/// unknown tag, has the wrong length for its tag, or ends tag 1 with a byte
/// other than 0 or 1.
pub open spec fn spec_parse(s: Seq<u8>) -> Option<InstructionView> {
    if s.len() < 4 {
        None
    } else {
        let tag = spec_u32_from_le_bytes(s.take(4));
        if tag == 0 {
            if s.len() == 12 {
                Some(
                    InstructionView::InitializeCar {
                        initial_trust_bits: spec_u64_from_le_bytes(s.skip(4)),
                    },
                )
            } else {
                None
            }
        } else if tag == 1 {
            if s.len() == 69 && (s[68] == 0 || s[68] == 1) {
                Some(
                    InstructionView::ReportMessageOutcome {
                        reporter: s.subrange(4, 36),
                        message_sender: s.subrange(36, 68),
                        is_true: s[68] == 1,
                    },
                )
            } else {
                None
            }
        } else if tag == 2 {
            if s.len() == 4 {
                Some(InstructionView::UpdateTrustScores)
            } else {
                None
            }
        } else {
            None
        }
    }
}

/// Copies the 32 identity bytes that start at `start` out of a payload.
fn copy_identity(data: &Vec<u8>, start: usize) -> (r: Identity)
    requires
        start + 32 <= data@.len(),
    ensures
        r@ == data@.subrange(start as int, start as int + 32),
        r.wf(),
{
    let n = data.len();
    let mut bytes: Vec<u8> = Vec::new();
    let mut k: usize = 0;
    while k < 32
        invariant
            k <= 32,
            start + 32 <= n,
            n == data@.len(),
            bytes@ == data@.subrange(start as int, start as int + k as int),
        decreases 32 - k,
    {
        bytes.push(data[start + k]);
        k += 1;
        proof {
            assert(data@.subrange(start as int, start as int + k as int) =~= data@.subrange(
                start as int,
                start as int + (k - 1) as int,
            ).push(data@[start as int + (k - 1) as int]));
        }
    }
    Identity { bytes }
}

/// Decodes the instruction envelope. Exactly the payloads of `spec_parse`
/// decode; every other payload fails as malformed, before any account is
/// touched.
pub fn parse_instruction(data: &Vec<u8>) -> (r: Result<TrustInstruction, TrustError>)
    ensures
        r matches Ok(instr) ==> spec_parse(data@) == Some(instr@) && instr.wf(),
        r is Err ==> spec_parse(data@) is None && r == Err::<TrustInstruction, TrustError>(
            TrustError::MalformedInstruction,
        ),
        spec_parse(data@) is Some ==> r is Ok,
{
    if data.len() < 4 {
        return Err(TrustError::MalformedInstruction);
    }
    let s = data.as_slice();
    let tag = u32_from_le_bytes(slice_subrange(s, 0, 4));
    proof {
        assert(data@.subrange(0, 4) =~= data@.take(4));
    }
    if tag == 0 {
        if data.len() != 12 {
            return Err(TrustError::MalformedInstruction);
        }
        let bits = u64_from_le_bytes(slice_subrange(s, 4, 12));
        proof {
            assert(data@.subrange(4, 12) =~= data@.skip(4));
        }
        Ok(TrustInstruction::InitializeCar { initial_trust_bits: bits })
    } else if tag == 1 {
        if data.len() != 69 {
            return Err(TrustError::MalformedInstruction);
        }
        let outcome_byte = data[68];
        if outcome_byte != 0 && outcome_byte != 1 {
            return Err(TrustError::MalformedInstruction);
        }
        let reporter = copy_identity(data, 4);
        let message_sender = copy_identity(data, 36);
        Ok(
            TrustInstruction::ReportMessageOutcome {
                reporter,
                message_sender,
                is_true: outcome_byte == 1,
            },
        )
    } else if tag == 2 {
        if data.len() != 4 {
            return Err(TrustError::MalformedInstruction);
        }
        Ok(TrustInstruction::UpdateTrustScores)
    } else {
        Err(TrustError::MalformedInstruction)
    }
}

/// Appends a byte sequence to a buffer being encoded.
fn append_bytes(out: &mut Vec<u8>, src: &Vec<u8>)
    ensures
        final(out)@ == old(out)@ + src@,
{
    let n = src.len();
    let mut k: usize = 0;
    while k < n
        invariant
            n == src@.len(),
            k <= n,
            out@ == old(out)@ + src@.take(k as int),
        decreases n - k,
    {
        out.push(src[k]);
        k += 1;
        proof {
            assert(src@.take(k as int) =~= src@.take((k - 1) as int).push(src@[k - 1]));
            assert(out@ =~= old(out)@ + src@.take(k as int));
        }
    }
    proof {
        assert(src@.take(n as int) =~= src@);
    }
}

/// Builds the wire image of an instruction. The law that the codec is exact
/// stands in the postcondition: the bytes parse back to the same
/// instruction.
pub fn encode_instruction(instr: &TrustInstruction) -> (r: Vec<u8>)
    requires
        instr.wf(),
    ensures
        spec_parse(r@) == Some(instr@),
{
    proof {
        lemma_auto_spec_u32_to_from_le_bytes();
        lemma_auto_spec_u64_to_from_le_bytes();
    }
    match instr {
        TrustInstruction::InitializeCar { initial_trust_bits } => {
            let mut out = u32_to_le_bytes(0u32);
            let mut tail = u64_to_le_bytes(*initial_trust_bits);
            out.append(&mut tail);
            proof {
                assert(out@.take(4) =~= spec_u32_to_le_bytes(0u32));
                assert(out@.skip(4) =~= spec_u64_to_le_bytes(*initial_trust_bits));
            }
            out
        },
        TrustInstruction::ReportMessageOutcome { reporter, message_sender, is_true } => {
            let mut out = u32_to_le_bytes(1u32);
            append_bytes(&mut out, &reporter.bytes);
            append_bytes(&mut out, &message_sender.bytes);
            out.push(if *is_true { 1u8 } else { 0u8 });
            proof {
                assert(out@.take(4) =~= spec_u32_to_le_bytes(1u32));
                assert(out@.subrange(4, 36) =~= reporter@);
                assert(out@.subrange(36, 68) =~= message_sender@);
            }
            out
        },
        TrustInstruction::UpdateTrustScores => {
            let out = u32_to_le_bytes(2u32);
            proof {
                assert(out@.take(4) =~= spec_u32_to_le_bytes(2u32));
            }
            out
        },
    }
}

} // verus!
