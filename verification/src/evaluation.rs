//! Strategy-evaluation request and response shapes, and the trigger rule.
//!
//! Strategy bounds travel as homomorphically encrypted hex blobs and are
//! compared against the current price by an external co-processor; what this
//! module pins down is the decision structure: which bound checks each
//! strategy type requires, and how their outcomes combine into the trigger
//! verdict.

use vstd::prelude::*;

verus! {

/// An evaluation request: a strategy type, encrypted bounds and keys (hex
/// encoded), and the current price in cents.
pub struct EvaluationPayload {
    /// Strategy type name; see `classify_strategy` for the known ones.
    pub strategy_type: String,
    /// Encrypted upper bound, hex encoded.
    pub encrypted_upper_bound: String,
    /// Encrypted lower bound, hex encoded.
    pub encrypted_lower_bound: String,
    /// Server key for the homomorphic computation, hex encoded.
    pub server_key: String,
    /// Current price in cents.
    pub current_price_cents: u32,
    /// Client key for decrypting the result, hex encoded.
    pub encrypted_client_key: String,
}

/// An evaluation response: whether the strategy triggered.
pub struct EvaluationResponse {
    /// True when the strategy's condition holds at the current price.
    pub is_triggered: bool,
}

/// Which bound checks a strategy type requires.
#[derive(Clone, Copy, Debug, PartialEq, Eq, Structural)]
pub enum BoundsCheck {
    /// Trigger when the price is at or above the upper bound, or at or
    /// below the lower bound.
    UpperOrLower,
    /// Trigger when the price is at or below the lower bound.
    LowerOnly,
    /// Trigger when the price is at or above the upper bound.
    UpperOnly,
}

/// The bound checks required by each known strategy type name; `None` for
/// an unknown name.
pub open spec fn spec_classify(s: Seq<char>) -> Option<BoundsCheck> {
    if s == "LIMIT_ORDER"@ || s == "BRACKET_ORDER_SHORT"@ {
        Some(BoundsCheck::UpperOrLower)
    } else if s == "LIMIT_BUY_DIP"@ {
        Some(BoundsCheck::LowerOnly)
    } else if s == "LIMIT_SELL_RALLY"@ {
        Some(BoundsCheck::UpperOnly)
    } else {
        None
    }
}

/// Map a strategy type name to its bound checks; `None` for an unknown
/// name, which an evaluation service answers with a rejection.
pub fn classify_strategy(strategy_type: &String) -> (r: Option<BoundsCheck>)
    ensures
        r == spec_classify(strategy_type@),
{
    if *strategy_type == "LIMIT_ORDER".to_owned() || *strategy_type == "BRACKET_ORDER_SHORT".to_owned() {
        Some(BoundsCheck::UpperOrLower)
    } else if *strategy_type == "LIMIT_BUY_DIP".to_owned() {
        Some(BoundsCheck::LowerOnly)
    } else if *strategy_type == "LIMIT_SELL_RALLY".to_owned() {
        Some(BoundsCheck::UpperOnly)
    } else {
        None
    }
}

/// How the two bound-check outcomes combine into the trigger verdict.
pub open spec fn spec_trigger(check: BoundsCheck, at_or_above_upper: bool, at_or_below_lower: bool) -> bool {
    match check {
        BoundsCheck::UpperOrLower => at_or_above_upper || at_or_below_lower,
        BoundsCheck::LowerOnly => at_or_below_lower,
        BoundsCheck::UpperOnly => at_or_above_upper,
    }
}

/// Combine the outcomes of the bound checks into the trigger verdict.
pub fn trigger_decision(check: BoundsCheck, at_or_above_upper: bool, at_or_below_lower: bool) -> (r:
    bool)
    ensures
        r == spec_trigger(check, at_or_above_upper, at_or_below_lower),
{
    match check {
        BoundsCheck::UpperOrLower => at_or_above_upper || at_or_below_lower,
        BoundsCheck::LowerOnly => at_or_below_lower,
        BoundsCheck::UpperOnly => at_or_above_upper,
    }
}

} // verus!
