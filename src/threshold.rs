//! The threshold a vote must reach, fixed once when the vote opens.
use vstd::prelude::*;
use crate::arith::{permill_mul, permill_of, PERMILL_ACCURACY};

verus! {

/// Passage and turnout fractions, each in parts per million of the total
/// power minted for a vote.
#[derive(Clone, Copy, Debug, PartialEq, Eq, Structural)]
pub struct ThresholdConfig {
    pub passage_threshold_pct: u32,
    pub turnout_threshold_pct: u32,
}

/// Absolute power required for passage and for turnout, and when the vote
/// opened.
#[derive(Clone, Copy, Debug, PartialEq, Eq, Structural)]
pub struct VoteThreshold {
    pub support_required: u64,
    pub turnout_required: u64,
    pub opened_at: u64,
}

/// A fraction given in percent, as parts per million; above 100 saturates.
pub open spec fn percent_parts(pct: nat) -> nat {
    if pct > 100 { 1_000_000 } else { pct * 10_000 }
}

impl ThresholdConfig {
    /// Both fractions lie in `[0, 1]`.
    pub open spec fn valid(&self) -> bool {
        self.passage_threshold_pct <= PERMILL_ACCURACY && self.turnout_threshold_pct
            <= PERMILL_ACCURACY
    }

    /// A configuration from two fractions in parts per million; each
    /// saturates at one whole.
    pub fn new(passage_parts: u32, turnout_parts: u32) -> (r: Self)
        ensures
            r.valid(),
            r.passage_threshold_pct == if passage_parts > PERMILL_ACCURACY {
                PERMILL_ACCURACY
            } else {
                passage_parts
            },
            r.turnout_threshold_pct == if turnout_parts > PERMILL_ACCURACY {
                PERMILL_ACCURACY
            } else {
                turnout_parts
            },
    {
        let p = if passage_parts > PERMILL_ACCURACY {
            PERMILL_ACCURACY
        } else {
            passage_parts
        };
        let t = if turnout_parts > PERMILL_ACCURACY {
            PERMILL_ACCURACY
        } else {
            turnout_parts
        };
        ThresholdConfig { passage_threshold_pct: p, turnout_threshold_pct: t }
    }

    /// A configuration from two percentages; each saturates at 100.
    pub fn from_percent(passage: u32, turnout: u32) -> (r: Self)
        ensures
            r.valid(),
            r.passage_threshold_pct as nat == percent_parts(passage as nat),
            r.turnout_threshold_pct as nat == percent_parts(turnout as nat),
    {
        let p = if passage > 100 {
            PERMILL_ACCURACY
        } else {
            passage * 10_000
        };
        let t = if turnout > 100 {
            PERMILL_ACCURACY
        } else {
            turnout * 10_000
        };
        ThresholdConfig { passage_threshold_pct: p, turnout_threshold_pct: t }
    }

    /// Unanimous consent: all of the minted power must turn out in favor.
    pub fn unanimous() -> (r: Self)
        ensures
            r.valid(),
            r.passage_threshold_pct == PERMILL_ACCURACY,
            r.turnout_threshold_pct == PERMILL_ACCURACY,
    {
        ThresholdConfig {
            passage_threshold_pct: PERMILL_ACCURACY,
            turnout_threshold_pct: PERMILL_ACCURACY,
        }
    }
}

/// The threshold that `config` gives for `possible_turnout` power, opened at
/// `now`.
pub open spec fn threshold_for(config: ThresholdConfig, possible_turnout: u64, now: u64) -> VoteThreshold {
    VoteThreshold {
        support_required: permill_of(
            config.passage_threshold_pct as nat,
            possible_turnout as nat,
        ) as u64,
        turnout_required: permill_of(
            config.turnout_threshold_pct as nat,
            possible_turnout as nat,
        ) as u64,
        opened_at: now,
    }
}

/// Scaling a power total by a fraction of at most one whole never exceeds
/// the total.
pub proof fn lemma_permill_bounded(parts: nat, x: nat)
    ensures
        permill_of(parts, x) <= x,
{
    let p: nat = if parts > 1_000_000 { 1_000_000 } else { parts };
    assert(x * p <= x * 1_000_000) by (nonlinear_arith)
        requires
            p <= 1_000_000,
    ;
    let q = (x * p) / 1_000_000;
    let m = (x * p) % 1_000_000;
    assert(x * p == q * 1_000_000 + m);
    if q == x {
        assert(m == 0) by (nonlinear_arith)
            requires
                x * p <= x * 1_000_000,
                x * p == q * 1_000_000 + m,
                q == x,
                m >= 0,
        ;
    } else {
        assert(q < x) by (nonlinear_arith)
            requires
                x * p <= x * 1_000_000,
                x * p == q * 1_000_000 + m,
                q != x,
                m >= 0,
        ;
    }
}

/// Builds the threshold for a vote from its configuration and the power
/// minted when it opens: `support_required` is the passage fraction of
/// `possible_turnout`, `turnout_required` the turnout fraction of it.
pub fn build_vote_threshold(
    threshold_config: ThresholdConfig,
    possible_turnout: u64,
    now: u64,
) -> (r: VoteThreshold)
    ensures
        r == threshold_for(threshold_config, possible_turnout, now),
        r.support_required <= possible_turnout,
        r.turnout_required <= possible_turnout,
{
    let support_required = permill_mul(threshold_config.passage_threshold_pct, possible_turnout);
    let turnout_required = permill_mul(threshold_config.turnout_threshold_pct, possible_turnout);
    proof {
        lemma_permill_bounded(threshold_config.passage_threshold_pct as nat, possible_turnout as nat);
        lemma_permill_bounded(threshold_config.turnout_threshold_pct as nat, possible_turnout as nat);
    }
    VoteThreshold { support_required, turnout_required, opened_at: now }
}

} // verus!
