//! Share difficulty derived from a hexadecimal target.
//!
//! A target is the upper bound a block hash must stay under; difficulty is
//! its inverse, `MAX_TARGET / target`. The quotient is kept as an exact
//! rational so that nothing is lost to rounding; callers that need a float
//! divide the two parts themselves.

use crate::numeric::{all_hex_digits, hex_value, parse_hex_u64};
use vstd::arithmetic::mul::lemma_mul_strict_inequality;
use vstd::prelude::*;

verus! {

/// Numerator of every derived difficulty: the conventional 32-bit maximum
/// target.
pub const MAX_TARGET: u64 = 0xFFFFFFFF;

/// Numerator of the fallback difficulty used when a target cannot be parsed.
pub const DEFAULT_DIFFICULTY: u64 = 1000;

/// An exact difficulty value `num / den`.
#[derive(Clone, Copy, Debug, PartialEq, Eq, Structural)]
pub struct Difficulty {
    pub num: u64,
    pub den: u64,
}

impl Difficulty {
    /// Whether the value is a well-formed ratio.
    pub open spec fn wf(self) -> bool {
        self.den >= 1
    }

    /// The fallback difficulty.
    pub open spec fn spec_default() -> Difficulty {
        Difficulty { num: DEFAULT_DIFFICULTY, den: 1 }
    }

    /// Strict order on ratios: `a/b > c/d` iff `a*d > c*b`.
    pub open spec fn spec_gt(self, other: Difficulty) -> bool {
        self.num * other.den > other.num * self.den
    }

    /// Returns the fallback difficulty.
    pub fn fallback() -> (r: Difficulty)
        ensures
            r == Difficulty::spec_default(),
            r.wf(),
    {
        Difficulty { num: DEFAULT_DIFFICULTY, den: 1 }
    }

    /// Compares two difficulties.
    pub fn gt(&self, other: &Difficulty) -> (r: bool)
        ensures
            r == self.spec_gt(*other),
    {
        proof {
            vstd::arithmetic::mul::lemma_mul_upper_bound(
                self.num as int,
                u64::MAX as int,
                other.den as int,
                u64::MAX as int,
            );
            vstd::arithmetic::mul::lemma_mul_upper_bound(
                other.num as int,
                u64::MAX as int,
                self.den as int,
                u64::MAX as int,
            );
        }
        (self.num as u128) * (other.den as u128) > (other.num as u128) * (self.den as u128)
    }
}

/// The hexadecimal digits of a target, after an optional `0x` prefix.
pub open spec fn strip_hex_prefix(s: Seq<char>) -> Seq<char> {
    if s.len() >= 2 && s[0] == '0' && s[1] == 'x' {
        s.subrange(2, s.len() as int)
    } else {
        s
    }
}

/// Whether `s` is a well-formed, non-zero target numeral.
pub open spec fn valid_target(s: Seq<char>) -> bool {
    let t = strip_hex_prefix(s);
    t.len() > 0 && all_hex_digits(t) && 0 < hex_value(t) <= u64::MAX
}

/// The difficulty a target string denotes: `MAX_TARGET / value` for a
/// parsable non-zero target, the fallback for everything else.
pub open spec fn target_difficulty(s: Seq<char>) -> Difficulty {
    if valid_target(s) {
        Difficulty { num: MAX_TARGET, den: hex_value(strip_hex_prefix(s)) as u64 }
    } else {
        Difficulty::spec_default()
    }
}

/// Derives the difficulty from a target hex string (optional `0x` prefix).
///
/// An empty, unparsable or zero target yields the fallback difficulty.
pub fn difficulty_from_target(target: &str) -> (r: Difficulty)
    ensures
        r == target_difficulty(target@),
        r.wf(),
{
    let n = target.unicode_len();
    let digits: &str = if n >= 2 && target.get_char(0) == '0' && target.get_char(1) == 'x' {
        target.substring_char(2, n)
    } else {
        target
    };
    proof {
        assert(digits@ =~= strip_hex_prefix(target@));
    }
    match parse_hex_u64(digits) {
        Some(v) if v > 0 => Difficulty { num: MAX_TARGET, den: v },
        _ => Difficulty::fallback(),
    }
}

/// An empty, non-hexadecimal or zero target always derives the fallback
/// difficulty.
pub proof fn lemma_invalid_target_is_fallback(s: Seq<char>)
    requires
        !valid_target(s),
    ensures
        target_difficulty(s) == Difficulty::spec_default(),
{
}

/// A numerically lower target derives a strictly higher difficulty:
/// of two valid non-zero targets, the smaller one is the harder one.
pub proof fn lemma_lower_target_harder(t1: Seq<char>, t2: Seq<char>)
    requires
        valid_target(t1),
        valid_target(t2),
        hex_value(strip_hex_prefix(t1)) < hex_value(strip_hex_prefix(t2)),
    ensures
        target_difficulty(t1).spec_gt(target_difficulty(t2)),
{
    let d1 = hex_value(strip_hex_prefix(t1)) as int;
    let d2 = hex_value(strip_hex_prefix(t2)) as int;
    assert(MAX_TARGET as int * d1 < MAX_TARGET as int * d2) by {
        lemma_mul_strict_inequality(d1, d2, MAX_TARGET as int);
        vstd::arithmetic::mul::lemma_mul_is_commutative(MAX_TARGET as int, d1);
        vstd::arithmetic::mul::lemma_mul_is_commutative(MAX_TARGET as int, d2);
    }
}

} // verus!
