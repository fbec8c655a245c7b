//! The campaign record and its fixed-width binary codec.
//!
//! A record is stored as 282 bytes: one flag byte, the 32-byte authority,
//! the 32-byte vault address, 200 description bytes, two little-endian
//! unsigned 64-bit numbers (target, amount raised) and the derivation bump.

use vstd::prelude::*;
use vstd::bytes::{
    lemma_auto_spec_u64_to_from_le_bytes, spec_u64_from_le_bytes, spec_u64_to_le_bytes,
    u64_from_le_bytes, u64_to_le_bytes,
};
use vstd::slice::slice_subrange;
use vstd::assert_seqs_equal;

use crate::error::CampaignError;

verus! {

/// The exact number of bytes of a stored campaign record.
pub const RECORD_LEN: usize = 282;

/// The persistent state of one campaign.
pub struct Campaign {
    /// Guards against double-initialization and uninitialized reads.
    pub is_initialized: bool,
    /// The only identity permitted to withdraw.
    pub authority: [u8; 32],
    /// The derived holding account for this campaign.
    pub vault: [u8; 32],
    /// Free-form campaign text, stored verbatim.
    pub description: [u8; 200],
    /// The funding goal; informational only.
    pub target: u64,
    /// Running total of all accepted donations.
    pub amount_raised: u64,
    /// The nonce that makes the record's derived address canonical.
    pub bump: u8,
}

/// The mathematical value of a campaign record.
#[verifier::ext_equal]
pub ghost struct CampaignView {
    pub is_initialized: bool,
    pub authority: Seq<u8>,
    pub vault: Seq<u8>,
    pub description: Seq<u8>,
    pub target: u64,
    pub amount_raised: u64,
    pub bump: u8,
}

impl CampaignView {
    /// The identity and description fields have their storage widths.
    pub open spec fn wf(self) -> bool {
        &&& self.authority.len() == 32
        &&& self.vault.len() == 32
        &&& self.description.len() == 200
    }
}

impl View for Campaign {
    type V = CampaignView;

    open spec fn view(&self) -> CampaignView {
        CampaignView {
            is_initialized: self.is_initialized,
            authority: self.authority@,
            vault: self.vault@,
            description: self.description@,
            target: self.target,
            amount_raised: self.amount_raised,
            bump: self.bump,
        }
    }
}

/// The 282-byte wire form of a record: the fields in table order, numbers
/// little-endian, the flag byte first and the bump byte last.
pub open spec fn spec_encode(c: CampaignView) -> Seq<u8> {
    seq![if c.is_initialized { 1u8 } else { 0u8 }] + c.authority + c.vault + c.description
        + spec_u64_to_le_bytes(c.target) + spec_u64_to_le_bytes(c.amount_raised) + seq![c.bump]
}

/// What a byte buffer holds as a record: `None` when the buffer is shorter
/// than a record or its flag byte is neither 0 nor 1; bytes past the record
/// length are ignored.
pub open spec fn spec_decode(s: Seq<u8>) -> Option<CampaignView> {
    if s.len() >= RECORD_LEN && (s[0] == 0 || s[0] == 1) {
        Some(
            CampaignView {
                is_initialized: s[0] == 1,
                authority: s.subrange(1, 33),
                vault: s.subrange(33, 65),
                description: s.subrange(65, 265),
                target: spec_u64_from_le_bytes(s.subrange(265, 273)),
                amount_raised: spec_u64_from_le_bytes(s.subrange(273, 281)),
                bump: s[281],
            },
        )
    } else {
        None
    }
}

/// A decoded record always carries fields of the storage widths.
pub proof fn lemma_decoded_wf(s: Seq<u8>)
    requires
        spec_decode(s) is Some,
    ensures
        spec_decode(s)->0.wf(),
        spec_encode(spec_decode(s)->0).len() == RECORD_LEN,
{
    lemma_auto_spec_u64_to_from_le_bytes();
}

/// Decoding inverts encoding: a well-formed record read back from its own
/// bytes, with anything at all appended, is recovered exactly.
pub proof fn lemma_decode_encode(c: CampaignView, rest: Seq<u8>)
    requires
        c.wf(),
    ensures
        spec_encode(c).len() == RECORD_LEN,
        spec_decode(spec_encode(c) + rest) == Some(c),
{
    lemma_auto_spec_u64_to_from_le_bytes();
    let s = spec_encode(c) + rest;
    assert(s[0] == if c.is_initialized { 1u8 } else { 0u8 });
    assert_seqs_equal!(s.subrange(1, 33) == c.authority);
    assert_seqs_equal!(s.subrange(33, 65) == c.vault);
    assert_seqs_equal!(s.subrange(65, 265) == c.description);
    assert_seqs_equal!(s.subrange(265, 273) == spec_u64_to_le_bytes(c.target));
    assert_seqs_equal!(s.subrange(273, 281) == spec_u64_to_le_bytes(c.amount_raised));
    assert(s[281] == c.bump);
    assert(spec_decode(s)->0 =~= c);
}

/// Encoding inverts decoding: any well-formed record buffer is reproduced
/// byte for byte by encoding what it decodes to.
pub proof fn lemma_encode_decode(s: Seq<u8>)
    requires
        s.len() == RECORD_LEN,
        spec_decode(s) is Some,
    ensures
        spec_encode(spec_decode(s)->0) == s,
{
    lemma_auto_spec_u64_to_from_le_bytes();
    let c = spec_decode(s)->0;
    assert(spec_u64_to_le_bytes(c.target) == s.subrange(265, 273));
    assert(spec_u64_to_le_bytes(c.amount_raised) == s.subrange(273, 281));
    assert_seqs_equal!(spec_encode(c) == s);
}

impl Campaign {
    /// Reads a record from the start of `src`, accepting flag bytes 0 and 1.
    pub fn unpack_from_slice(src: &[u8]) -> (r: Result<Campaign, CampaignError>)
        ensures
            match r {
                Ok(c) => spec_decode(src@) == Some(c@),
                Err(e) => spec_decode(src@) is None && e == CampaignError::AccountDataError,
            },
    {
        if src.len() < RECORD_LEN {
            return Err(CampaignError::AccountDataError);
        }
        let flag = src[0];
        let is_initialized = if flag == 0 {
            false
        } else if flag == 1 {
            true
        } else {
            return Err(CampaignError::AccountDataError);
        };
        let mut authority: [u8; 32] = [0u8; 32];
        let mut i: usize = 0;
        while i < 32
            invariant
                i <= 32,
                src@.len() >= RECORD_LEN,
                forall|j: int| 0 <= j < i ==> authority@[j] == src@[1 + j],
            decreases 32 - i,
        {
            authority[i] = src[1 + i];
            i += 1;
        }
        let mut vault: [u8; 32] = [0u8; 32];
        let mut i: usize = 0;
        while i < 32
            invariant
                i <= 32,
                src@.len() >= RECORD_LEN,
                forall|j: int| 0 <= j < i ==> vault@[j] == src@[33 + j],
            decreases 32 - i,
        {
            vault[i] = src[33 + i];
            i += 1;
        }
        let mut description: [u8; 200] = [0u8; 200];
        let mut i: usize = 0;
        while i < 200
            invariant
                i <= 200,
                src@.len() >= RECORD_LEN,
                forall|j: int| 0 <= j < i ==> description@[j] == src@[65 + j],
            decreases 200 - i,
        {
            description[i] = src[65 + i];
            i += 1;
        }
        let target = u64_from_le_bytes(slice_subrange(src, 265, 273));
        let amount_raised = u64_from_le_bytes(slice_subrange(src, 273, 281));
        let bump = src[281];
        let c = Campaign { is_initialized, authority, vault, description, target, amount_raised, bump };
        proof {
            assert_seqs_equal!(c.authority@ == src@.subrange(1, 33));
            assert_seqs_equal!(c.vault@ == src@.subrange(33, 65));
            assert_seqs_equal!(c.description@ == src@.subrange(65, 265));
            assert(spec_decode(src@)->0 =~= c@);
        }
        Ok(c)
    }

    /// Reads a record and rejects one whose flag says it was never
    /// initialized; every read path outside initialization goes through here.
    pub fn unpack(src: &[u8]) -> (r: Result<Campaign, CampaignError>)
        ensures
            match r {
                Ok(c) => spec_decode(src@) == Some(c@) && c@.is_initialized,
                Err(e) => {
                    &&& (spec_decode(src@) is None || !spec_decode(src@)->0.is_initialized)
                    &&& e == CampaignError::AccountDataError
                },
            },
    {
        let c = Campaign::unpack_from_slice(src)?;
        if !c.is_initialized {
            return Err(CampaignError::AccountDataError);
        }
        Ok(c)
    }

    /// Writes the record over the first 282 bytes of `dst`, leaving the rest
    /// of the buffer as it was.
    pub fn pack_into_slice(&self, dst: &mut Vec<u8>)
        requires
            old(dst).len() >= RECORD_LEN,
        ensures
            final(dst)@.len() == old(dst)@.len(),
            final(dst)@ == spec_encode(self@) + old(dst)@.skip(RECORD_LEN as int),
    {
        dst[0] = if self.is_initialized {
            1
        } else {
            0
        };
        let mut i: usize = 0;
        while i < 32
            invariant
                i <= 32,
                dst@.len() == old(dst)@.len() >= RECORD_LEN,
                dst@[0] == (if self.is_initialized { 1u8 } else { 0u8 }),
                forall|j: int| 0 <= j < i ==> dst@[1 + j] == self.authority@[j],
                forall|j: int| 1 + i <= j < old(dst)@.len() ==> dst@[j] == old(dst)@[j],
            decreases 32 - i,
        {
            dst[1 + i] = self.authority[i];
            i += 1;
        }
        let mut i: usize = 0;
        while i < 32
            invariant
                i <= 32,
                dst@.len() == old(dst)@.len() >= RECORD_LEN,
                dst@[0] == (if self.is_initialized { 1u8 } else { 0u8 }),
                forall|j: int| 0 <= j < 32 ==> dst@[1 + j] == self.authority@[j],
                forall|j: int| 0 <= j < i ==> dst@[33 + j] == self.vault@[j],
                forall|j: int| 33 + i <= j < old(dst)@.len() ==> dst@[j] == old(dst)@[j],
            decreases 32 - i,
        {
            dst[33 + i] = self.vault[i];
            i += 1;
        }
        let mut i: usize = 0;
        while i < 200
            invariant
                i <= 200,
                dst@.len() == old(dst)@.len() >= RECORD_LEN,
                dst@[0] == (if self.is_initialized { 1u8 } else { 0u8 }),
                forall|j: int| 0 <= j < 32 ==> dst@[1 + j] == self.authority@[j],
                forall|j: int| 0 <= j < 32 ==> dst@[33 + j] == self.vault@[j],
                forall|j: int| 0 <= j < i ==> dst@[65 + j] == self.description@[j],
                forall|j: int| 65 + i <= j < old(dst)@.len() ==> dst@[j] == old(dst)@[j],
            decreases 200 - i,
        {
            dst[65 + i] = self.description[i];
            i += 1;
        }
        let target_bytes = u64_to_le_bytes(self.target);
        let mut i: usize = 0;
        while i < 8
            invariant
                i <= 8,
                target_bytes@ == spec_u64_to_le_bytes(self.target),
                target_bytes@.len() == 8,
                dst@.len() == old(dst)@.len() >= RECORD_LEN,
                dst@[0] == (if self.is_initialized { 1u8 } else { 0u8 }),
                forall|j: int| 0 <= j < 32 ==> dst@[1 + j] == self.authority@[j],
                forall|j: int| 0 <= j < 32 ==> dst@[33 + j] == self.vault@[j],
                forall|j: int| 0 <= j < 200 ==> dst@[65 + j] == self.description@[j],
                forall|j: int| 0 <= j < i ==> dst@[265 + j] == target_bytes@[j],
                forall|j: int| 265 + i <= j < old(dst)@.len() ==> dst@[j] == old(dst)@[j],
            decreases 8 - i,
        {
            dst[265 + i] = target_bytes[i];
            i += 1;
        }
        let amount_bytes = u64_to_le_bytes(self.amount_raised);
        let mut i: usize = 0;
        while i < 8
            invariant
                i <= 8,
                amount_bytes@ == spec_u64_to_le_bytes(self.amount_raised),
                amount_bytes@.len() == 8,
                dst@.len() == old(dst)@.len() >= RECORD_LEN,
                dst@[0] == (if self.is_initialized { 1u8 } else { 0u8 }),
                forall|j: int| 0 <= j < 32 ==> dst@[1 + j] == self.authority@[j],
                forall|j: int| 0 <= j < 32 ==> dst@[33 + j] == self.vault@[j],
                forall|j: int| 0 <= j < 200 ==> dst@[65 + j] == self.description@[j],
                forall|j: int| 0 <= j < 8 ==> dst@[265 + j] == spec_u64_to_le_bytes(self.target)[j],
                forall|j: int| 0 <= j < i ==> dst@[273 + j] == amount_bytes@[j],
                forall|j: int| 273 + i <= j < old(dst)@.len() ==> dst@[j] == old(dst)@[j],
            decreases 8 - i,
        {
            dst[273 + i] = amount_bytes[i];
            i += 1;
        }
        dst[281] = self.bump;
        proof {
            lemma_auto_spec_u64_to_from_le_bytes();
            assert_seqs_equal!(dst@ == spec_encode(self@) + old(dst)@.skip(RECORD_LEN as int));
        }
    }
}

} // verus!
