//! The instructions the program accepts, and the payloads they arrive as.
//!
//! A payload is one tag byte followed by the fields of the instruction it names.

use vstd::prelude::*;
use crate::error::LedgerError;
use crate::pubkey::Pubkey;
use crate::wire::{
    le_bytes, le_value, lemma_le_bytes_len, lemma_le_bytes_of_value, lemma_le_limits,
    lemma_le_value_bound, lemma_le_value_of_bytes, lemma_string_at_inverse,
    lemma_string_at_wire, put_bytes, put_string, put_u64, read_bytes32, read_string, read_u64,
    string_at, string_fits, string_wire,
};

verus! {

/// What a caller can ask the program to do.
#[derive(Clone, Debug, PartialEq, Eq)]
pub enum ZenithCodeInstruction {
    /// Create the caller's ledger entry.
    InitializeUser,
    /// Record a contribution and credit its reward.
    ContributePattern { pattern_hash: [u8; 32], language: String, domain: String, complexity: u8 },
    /// Move tokens to another user.
    TransferTokens { to: Pubkey, amount: u64 },
    /// Ask for the reward of a recorded contribution.
    ClaimRewards { contribution_id: u64 },
}

/// What a `ZenithCodeInstruction` holds.
pub enum InstructionView {
    InitializeUser,
    ContributePattern {
        pattern_hash: Seq<u8>,
        language: Seq<char>,
        domain: Seq<char>,
        complexity: u8,
    },
    TransferTokens { to: Seq<u8>, amount: u64 },
    ClaimRewards { contribution_id: u64 },
}

impl View for ZenithCodeInstruction {
    type V = InstructionView;

    open spec fn view(&self) -> InstructionView {
        match self {
            ZenithCodeInstruction::InitializeUser => InstructionView::InitializeUser,
            ZenithCodeInstruction::ContributePattern {
                pattern_hash,
                language,
                domain,
                complexity,
            } => InstructionView::ContributePattern {
                pattern_hash: pattern_hash@,
                language: language@,
                domain: domain@,
                complexity: *complexity,
            },
            ZenithCodeInstruction::TransferTokens { to, amount } => InstructionView::TransferTokens {
                to: to@,
                amount: *amount,
            },
            ZenithCodeInstruction::ClaimRewards {
                contribution_id,
            } => InstructionView::ClaimRewards { contribution_id: *contribution_id },
        }
    }
}

impl InstructionView {
    /// Identities and hashes have 32 bytes, and strings fit their length prefix.
    pub open spec fn wf(self) -> bool {
        match self {
            InstructionView::InitializeUser => true,
            InstructionView::ContributePattern { pattern_hash, language, domain, complexity } => {
                pattern_hash.len() == 32 && string_fits(language) && string_fits(domain)
            },
            InstructionView::TransferTokens { to, amount } => to.len() == 32,
            InstructionView::ClaimRewards { contribution_id } => true,
        }
    }

    /// The payload of the instruction.
    pub open spec fn wire(self) -> Seq<u8> {
        match self {
            InstructionView::InitializeUser => seq![0u8],
            InstructionView::ContributePattern { pattern_hash, language, domain, complexity } => {
                seq![1u8] + pattern_hash + string_wire(language) + string_wire(domain)
                    + seq![complexity]
            },
            InstructionView::TransferTokens { to, amount } => seq![2u8] + to + le_bytes(
                amount as nat,
                8,
            ),
            InstructionView::ClaimRewards { contribution_id } => seq![3u8] + le_bytes(
                contribution_id as nat,
                8,
            ),
        }
    }

    /// The instruction that `bytes` are the payload of, if there is one.
    pub open spec fn parse(bytes: Seq<u8>) -> Option<InstructionView> {
        if bytes.len() == 0 {
            None
        } else if bytes[0] == 0 {
            if bytes.len() == 1 {
                Some(InstructionView::InitializeUser)
            } else {
                None
            }
        } else if bytes[0] == 1 {
            match string_at(bytes, 33) {
                Some((language, after_language)) => match string_at(bytes, after_language) {
                    Some((domain, tail)) => if bytes.len() == tail + 1 {
                        Some(
                            InstructionView::ContributePattern {
                                pattern_hash: bytes.subrange(1, 33),
                                language,
                                domain,
                                complexity: bytes[tail],
                            },
                        )
                    } else {
                        None
                    },
                    None => None,
                },
                None => None,
            }
        } else if bytes[0] == 2 {
            if bytes.len() == 41 {
                Some(
                    InstructionView::TransferTokens {
                        to: bytes.subrange(1, 33),
                        amount: le_value(bytes.subrange(33, 41)) as u64,
                    },
                )
            } else {
                None
            }
        } else if bytes[0] == 3 {
            if bytes.len() == 9 {
                Some(
                    InstructionView::ClaimRewards {
                        contribution_id: le_value(bytes.subrange(1, 9)) as u64,
                    },
                )
            } else {
                None
            }
        } else {
            None
        }
    }
}

/// Decoding the payload of an instruction gives the instruction back.
pub proof fn lemma_instruction_round_trip(instruction: InstructionView)
    requires
        instruction.wf(),
    ensures
        InstructionView::parse(instruction.wire()) == Some(instruction),
{
    let bytes = instruction.wire();
    lemma_le_limits();
    match instruction {
        InstructionView::InitializeUser => {},
        InstructionView::ContributePattern { pattern_hash, language, domain, complexity } => {
            let head = seq![1u8] + pattern_hash;
            lemma_string_at_wire(head, language, string_wire(domain) + seq![complexity]);
            lemma_string_at_wire(head + string_wire(language), domain, seq![complexity]);
            assert(bytes =~= head + string_wire(language) + (string_wire(domain)
                + seq![complexity]));
            assert(bytes =~= head + string_wire(language) + string_wire(domain)
                + seq![complexity]);
            assert(bytes.subrange(1, 33) =~= pattern_hash);
        },
        InstructionView::TransferTokens { to, amount } => {
            lemma_le_bytes_len(amount as nat, 8);
            lemma_le_value_of_bytes(amount as nat, 8);
            assert(bytes.subrange(1, 33) =~= to);
            assert(bytes.subrange(33, 41) =~= le_bytes(amount as nat, 8));
        },
        InstructionView::ClaimRewards { contribution_id } => {
            lemma_le_bytes_len(contribution_id as nat, 8);
            lemma_le_value_of_bytes(contribution_id as nat, 8);
            assert(bytes.subrange(1, 9) =~= le_bytes(contribution_id as nat, 8));
        },
    }
}

/// A payload that decodes to an instruction is the payload of that instruction.
pub proof fn lemma_instruction_parse_inverse(bytes: Seq<u8>)
    requires
        InstructionView::parse(bytes) is Some,
    ensures
        InstructionView::parse(bytes)->Some_0.wf(),
        InstructionView::parse(bytes)->Some_0.wire() == bytes,
{
    let instruction = InstructionView::parse(bytes)->Some_0;
    lemma_le_limits();
    if bytes[0] == 0 {
        assert(instruction.wire() =~= bytes);
    } else if bytes[0] == 1 {
        let after_language = string_at(bytes, 33)->Some_0.1;
        let tail = string_at(bytes, after_language)->Some_0.1;
        lemma_string_at_inverse(bytes, 33);
        lemma_string_at_inverse(bytes, after_language);
        assert(instruction.wire() =~= seq![1u8] + bytes.subrange(1, 33) + bytes.subrange(
            33,
            after_language,
        ) + bytes.subrange(after_language, tail) + seq![bytes[tail]]);
        assert(instruction.wire() =~= bytes);
    } else if bytes[0] == 2 {
        lemma_le_value_bound(bytes.subrange(33, 41));
        lemma_le_bytes_of_value(bytes.subrange(33, 41));
        assert(instruction.wire() =~= bytes);
    } else {
        lemma_le_value_bound(bytes.subrange(1, 9));
        lemma_le_bytes_of_value(bytes.subrange(1, 9));
        assert(instruction.wire() =~= bytes);
    }
}

impl ZenithCodeInstruction {
    /// The payload of the instruction, which decodes to the instruction again;
    /// `BufferTooSmall` if one of its strings is too long to be sent at all.
    pub fn to_bytes(&self) -> (r: Result<Vec<u8>, LedgerError>)
        ensures
            r is Ok <==> self@.wf(),
            r matches Ok(bytes) ==> bytes@ == self@.wire() && InstructionView::parse(bytes@)
                == Some(self@),
            r matches Err(e) ==> e == LedgerError::BufferTooSmall,
    {
        let mut out: Vec<u8> = Vec::new();
        match self {
            ZenithCodeInstruction::InitializeUser => {
                out.push(0u8);
                assert(out@ =~= self@.wire());
            },
            ZenithCodeInstruction::ContributePattern {
                pattern_hash,
                language,
                domain,
                complexity,
            } => {
                out.push(1u8);
                put_bytes(&mut out, pattern_hash.as_slice());
                match put_string(&mut out, language) {
                    Ok(()) => {},
                    Err(e) => {
                        return Err(e);
                    },
                }
                match put_string(&mut out, domain) {
                    Ok(()) => {},
                    Err(e) => {
                        return Err(e);
                    },
                }
                out.push(*complexity);
                assert(out@ =~= self@.wire());
            },
            ZenithCodeInstruction::TransferTokens { to, amount } => {
                out.push(2u8);
                put_bytes(&mut out, to.0.as_slice());
                put_u64(&mut out, *amount);
                assert(out@ =~= self@.wire());
            },
            ZenithCodeInstruction::ClaimRewards { contribution_id } => {
                out.push(3u8);
                put_u64(&mut out, *contribution_id);
                assert(out@ =~= self@.wire());
            },
        }
        proof {
            lemma_instruction_round_trip(self@);
        }
        Ok(out)
    }

    /// The instruction that `bytes` are the payload of.
    pub fn try_from_slice(bytes: &[u8]) -> (r: Result<ZenithCodeInstruction, LedgerError>)
        ensures
            r is Ok <==> InstructionView::parse(bytes@) is Some,
            r matches Ok(instruction) ==> Some(instruction@) == InstructionView::parse(bytes@),
            r matches Err(e) ==> e == LedgerError::DecodeError,
    {
        if bytes.len() == 0 {
            return Err(LedgerError::DecodeError);
        }
        let tag = bytes[0];
        if tag == 0 {
            if bytes.len() != 1 {
                return Err(LedgerError::DecodeError);
            }
            Ok(ZenithCodeInstruction::InitializeUser)
        } else if tag == 1 {
            let pattern_hash = match read_bytes32(bytes, 1) {
                Ok(hash) => hash,
                Err(e) => {
                    return Err(e);
                },
            };
            let (language, after_language) = match read_string(bytes, 33) {
                Ok(found) => found,
                Err(e) => {
                    return Err(e);
                },
            };
            let (domain, tail) = match read_string(bytes, after_language) {
                Ok(found) => found,
                Err(e) => {
                    return Err(e);
                },
            };
            if bytes.len() - tail != 1 {
                return Err(LedgerError::DecodeError);
            }
            let complexity = bytes[tail];
            Ok(ZenithCodeInstruction::ContributePattern { pattern_hash, language, domain, complexity })
        } else if tag == 2 {
            if bytes.len() != 41 {
                return Err(LedgerError::DecodeError);
            }
            let to = match read_bytes32(bytes, 1) {
                Ok(key) => key,
                Err(e) => {
                    return Err(e);
                },
            };
            let amount = match read_u64(bytes, 33) {
                Ok(value) => value,
                Err(e) => {
                    return Err(e);
                },
            };
            Ok(ZenithCodeInstruction::TransferTokens { to: Pubkey(to), amount })
        } else if tag == 3 {
            if bytes.len() != 9 {
                return Err(LedgerError::DecodeError);
            }
            let contribution_id = match read_u64(bytes, 1) {
                Ok(value) => value,
                Err(e) => {
                    return Err(e);
                },
            };
            Ok(ZenithCodeInstruction::ClaimRewards { contribution_id })
        } else {
            Err(LedgerError::DecodeError)
        }
    }
}

} // verus!
