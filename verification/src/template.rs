//! Mining jobs cut from block templates, and the share submissions they
//! draw: the job-distribution data the proxy and its upstream exchange.

use crate::difficulty::MAX_TARGET;
use crate::numeric::{format_hex_fixed, hex_fixed};
use crate::strings::chars_to_string;
use vstd::prelude::*;

verus! {

/// A block template as the coin daemon hands it out.
pub struct BlockTemplate {
    pub blocktemplate_blob: String,
    pub blockhashing_blob: String,
    pub difficulty: u64,
    pub height: u64,
    pub prev_hash: String,
    pub reserved_offset: usize,
    pub expected_reward: u64,
}

/// A unit of mining work sent to miners.
pub struct MiningJob {
    pub job_id: String,
    pub blob: String,
    pub target: String,
    pub height: u64,
    pub seed_hash: Option<String>,
}

/// The eight-digit target a difficulty maps to: `MAX_TARGET / difficulty`
/// in hexadecimal, the maximum target itself for a zero difficulty.
pub open spec fn target_of_difficulty(difficulty: u64) -> Seq<char> {
    hex_fixed(
        (if difficulty == 0 {
            MAX_TARGET as nat
        } else {
            (MAX_TARGET as nat) / (difficulty as nat)
        }),
        8,
    )
}

impl MiningJob {
    /// Converts a difficulty to a zero-padded target hex string.
    pub fn difficulty_to_target(difficulty: u64) -> (r: String)
        ensures
            r@ == target_of_difficulty(difficulty),
    {
        let value: u64 = if difficulty == 0 {
            MAX_TARGET
        } else {
            MAX_TARGET / difficulty
        };
        let digits = format_hex_fixed(value, 8);
        chars_to_string(&digits)
    }

    /// Cuts a mining job from a block template: the hashing blob, the
    /// height, and the target derived from the template's difficulty.
    pub fn from_template(template: &BlockTemplate, job_id: String) -> (r: MiningJob)
        ensures
            r.job_id@ == job_id@,
            r.blob@ == template.blockhashing_blob@,
            r.target@ == target_of_difficulty(template.difficulty),
            r.height == template.height,
            r.seed_hash is None,
    {
        let target = Self::difficulty_to_target(template.difficulty);
        MiningJob {
            job_id,
            blob: template.blockhashing_blob.clone(),
            target,
            height: template.height,
            seed_hash: None,
        }
    }
}

/// A share submitted by a miner for a given job.
pub struct ShareSubmit {
    pub job_id: String,
    pub nonce: String,
    pub result: String,
}

impl ShareSubmit {
    /// Structural validation of a share against a difficulty target: a
    /// share can only count against a positive difficulty. Authoritative
    /// acceptance is the upstream's, not the proxy's.
    pub fn validate(&self, target_difficulty: u64) -> (r: bool)
        ensures
            r == (target_difficulty > 0),
    {
        target_difficulty > 0
    }
}

} // verus!
