//! The reward paid for a contribution.

use vstd::prelude::*;

verus! {

/// Tokens paid for a contribution of the lowest complexity.
pub const BASE_REWARD: u64 = 10;

/// Complexity above this value earns no more than this value does.
pub const MAX_COMPLEXITY: u8 = 10;

/// The reward for a contribution: the base reward once, and once more for every
/// two full points of complexity up to `MAX_COMPLEXITY`.
pub open spec fn tokens_earned(complexity: u8) -> int {
    let capped: int = if complexity <= MAX_COMPLEXITY { complexity as int } else { MAX_COMPLEXITY as int };
    BASE_REWARD * (capped / 2 + 1)
}

pub fn calculate_tokens_earned(complexity: u8) -> (tokens: u64)
    ensures
        tokens == tokens_earned(complexity),
        BASE_REWARD <= tokens <= 60,
{
    let capped: u64 = if complexity <= MAX_COMPLEXITY { complexity as u64 } else { MAX_COMPLEXITY as u64 };
    BASE_REWARD * (capped / 2 + 1)
}

/// A contribution that is at least as complex earns at least as much.
pub proof fn lemma_reward_monotonic(lower: u8, higher: u8)
    requires
        lower <= higher,
    ensures
        tokens_earned(lower) <= tokens_earned(higher),
{
}

/// Every complexity above `MAX_COMPLEXITY` earns what `MAX_COMPLEXITY` earns.
pub proof fn lemma_reward_capped(complexity: u8)
    requires
        complexity >= MAX_COMPLEXITY,
    ensures
        tokens_earned(complexity) == 60,
{
}

/// The reward for each complexity up to `MAX_COMPLEXITY`: an odd complexity
/// earns what the even one below it earns.
pub proof fn lemma_reward_table()
    ensures
        tokens_earned(0) == 10,
        tokens_earned(1) == 10,
        tokens_earned(2) == 20,
        tokens_earned(3) == 20,
        tokens_earned(4) == 30,
        tokens_earned(5) == 30,
        tokens_earned(6) == 40,
        tokens_earned(7) == 40,
        tokens_earned(8) == 50,
        tokens_earned(9) == 50,
        tokens_earned(10) == 60,
{
}

} // verus!
