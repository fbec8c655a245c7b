//! The request codec: a tagged byte buffer decoded into one of three
//! typed requests.
//!
//! The first byte is the discriminant (0, 1 or 2); what follows is specific
//! to the request.  Starting a campaign takes exactly a little-endian
//! unsigned 64-bit target and 200 description bytes; donating takes at
//! least a little-endian unsigned 64-bit amount, extra bytes ignored;
//! withdrawing takes nothing, extra bytes ignored.

use vstd::prelude::*;
use vstd::bytes::{spec_u64_from_le_bytes, u64_from_le_bytes};
use vstd::slice::slice_subrange;
use vstd::assert_seqs_equal;

use crate::error::CampaignError;

verus! {

/// A decoded request.
pub enum Instruction {
    /// Starts a new campaign: creates its record and its vault.
    InitCampaign {
        /// The funding goal.
        target: u64,
        /// The campaign text, exactly 200 bytes, zero-padded by the client.
        description: [u8; 200],
    },
    /// Moves `amount` from the donor into the campaign's vault.
    Donate {
        /// The donation size.
        amount: u64,
    },
    /// Drains the vault and the record to the authority and destroys both.
    Withdraw {},
}

/// Whether a byte buffer is a well-formed request.
pub open spec fn wire_ok(s: Seq<u8>) -> bool {
    &&& s.len() >= 1
    &&& {
        ||| (s[0] == 0 && s.len() == 209)
        ||| (s[0] == 1 && s.len() >= 9)
        ||| s[0] == 2
    }
}

impl Instruction {
    /// Decodes a byte buffer into a request; rejects an empty buffer, an
    /// unknown discriminant and a malformed payload.
    pub fn unpack(input: &[u8]) -> (r: Result<Instruction, CampaignError>)
        ensures
            r is Ok <==> wire_ok(input@),
            match r {
                Ok(inst) => match inst {
                    Instruction::InitCampaign { target, description } => {
                        &&& input@[0] == 0
                        &&& target == spec_u64_from_le_bytes(input@.subrange(1, 9))
                        &&& description@ == input@.subrange(9, 209)
                    },
                    Instruction::Donate { amount } => {
                        &&& input@[0] == 1
                        &&& amount == spec_u64_from_le_bytes(input@.subrange(1, 9))
                    },
                    Instruction::Withdraw {} => input@[0] == 2,
                },
                Err(e) => e == CampaignError::InvalidInstruction,
            },
    {
        if input.len() == 0 {
            return Err(CampaignError::InvalidInstruction);
        }
        let tag = input[0];
        let rest = slice_subrange(input, 1, input.len());
        if tag == 0 {
            let r = Self::unpack_init_campaign_args(rest);
            proof {
                if input@.len() == 209 {
                    assert(rest@.subrange(0, 8) =~= input@.subrange(1, 9));
                    assert(rest@.subrange(8, 208) =~= input@.subrange(9, 209));
                }
            }
            r
        } else if tag == 1 {
            let r = Self::unpack_donate_args(rest);
            proof {
                if input@.len() >= 9 {
                    assert(rest@.subrange(0, 8) =~= input@.subrange(1, 9));
                }
            }
            r
        } else if tag == 2 {
            Ok(Instruction::Withdraw {})
        } else {
            Err(CampaignError::InvalidInstruction)
        }
    }

    /// Decodes the payload of a campaign-start request: exactly 8 target
    /// bytes followed by 200 description bytes.
    pub fn unpack_init_campaign_args(src: &[u8]) -> (r: Result<Instruction, CampaignError>)
        ensures
            r is Ok <==> src@.len() == 208,
            match r {
                Ok(inst) => match inst {
                    Instruction::InitCampaign { target, description } => {
                        &&& target == spec_u64_from_le_bytes(src@.subrange(0, 8))
                        &&& description@ == src@.subrange(8, 208)
                    },
                    _ => false,
                },
                Err(e) => e == CampaignError::InvalidInstruction,
            },
    {
        if src.len() != 208 {
            return Err(CampaignError::InvalidInstruction);
        }
        let target = u64_from_le_bytes(slice_subrange(src, 0, 8));
        let mut description: [u8; 200] = [0u8; 200];
        let mut i: usize = 0;
        while i < 200
            invariant
                i <= 200,
                src@.len() == 208,
                forall|j: int| 0 <= j < i ==> description@[j] == src@[8 + j],
            decreases 200 - i,
        {
            description[i] = src[8 + i];
            i += 1;
        }
        proof {
            assert_seqs_equal!(description@ == src@.subrange(8, 208));
        }
        Ok(Instruction::InitCampaign { target, description })
    }

    /// Decodes the payload of a donation request: at least 8 amount bytes,
    /// anything further ignored.
    pub fn unpack_donate_args(src: &[u8]) -> (r: Result<Instruction, CampaignError>)
        ensures
            r is Ok <==> src@.len() >= 8,
            match r {
                Ok(inst) => match inst {
                    Instruction::Donate { amount } => amount == spec_u64_from_le_bytes(
                        src@.subrange(0, 8),
                    ),
                    _ => false,
                },
                Err(e) => e == CampaignError::InvalidInstruction,
            },
    {
        if src.len() < 8 {
            return Err(CampaignError::InvalidInstruction);
        }
        let amount = u64_from_le_bytes(slice_subrange(src, 0, 8));
        Ok(Instruction::Donate { amount })
    }
}

} // verus!
