use vstd::prelude::*;

use crate::state::GameAccount;

verus! {

/// What each of the three treasury recipients receives: a third of the fees
/// that the pool both owes and holds, rounded down.
pub open spec fn treasury_share(dev_fees: u64, balance: u64) -> int {
    (if dev_fees <= balance { dev_fees } else { balance }) as int / 3
}

/// Splits the treasury fees three ways: returns each recipient's share and
/// takes three shares from the fee pool; the remainder stays there for a
/// later withdrawal.
pub fn withdraw(game: &mut GameAccount, game_balance: u64) -> (r: u64)
    ensures
        r == treasury_share(old(game).dev_fees, game_balance),
        *final(game) == (GameAccount { dev_fees: (old(game).dev_fees - 3 * r) as u64, ..*old(game) }),
{
    let available = if game.dev_fees > game_balance { game_balance } else { game.dev_fees };
    let amount_per = available / 3;
    game.dev_fees = game.dev_fees - amount_per * 3;
    amount_per
}

} // verus!
