use vstd::prelude::*;

use crate::error::CookieError;
use crate::rewards::{add_stake, claimable, remove_stake, staked_less, staked_more};
use crate::state::{GameAccount, PlayerAccount};

verus! {

/// Both ledgers after the participant, holding `balance` tokens, stakes
/// `amount` of them.
pub open spec fn stake_result(g: GameAccount, p: PlayerAccount, amount: u64, balance: u64) -> Result<
    (GameAccount, PlayerAccount),
    CookieError,
> {
    if amount > balance {
        Err(CookieError::InsufficientBalance)
    } else {
        match staked_more(g, p, amount) {
            Some(r) => Ok(r),
            None => Err(CookieError::NumericalOverflow),
        }
    }
}

/// Both ledgers after the participant withdraws `amount` of their stake.
pub open spec fn unstake_result(g: GameAccount, p: PlayerAccount, amount: u64) -> Result<
    (GameAccount, PlayerAccount),
    CookieError,
> {
    if amount > p.staked {
        Err(CookieError::InsufficientStake)
    } else {
        match staked_less(g, p, amount) {
            Some(r) => Ok(r),
            None => Err(CookieError::NumericalOverflow),
        }
    }
}

/// Stakes `amount` of the participant's `player_balance` tokens, rebasing the
/// debt on the accumulator as it stands. The ledgers are unchanged on error.
pub fn stake(game: &mut GameAccount, player: &mut PlayerAccount, amount: u64, player_balance: u64) -> (r: Result<(), CookieError>)
    ensures
        match stake_result(*old(game), *old(player), amount, player_balance) {
            Ok((g, p)) => r is Ok && *final(game) == g && *final(player) == p,
            Err(e) => r == Err::<(), CookieError>(e) && *final(game) == *old(game)
                && *final(player) == *old(player),
        },
        final(game).scaled_rewards_per_token == old(game).scaled_rewards_per_token,
{
    if amount > player_balance {
        return Err(CookieError::InsufficientBalance);
    }
    add_stake(game, player, amount)
}

/// Stakes the participant's whole balance.
pub fn stake_all(game: &mut GameAccount, player: &mut PlayerAccount, player_balance: u64) -> (r: Result<(), CookieError>)
    ensures
        match stake_result(*old(game), *old(player), player_balance, player_balance) {
            Ok((g, p)) => r is Ok && *final(game) == g && *final(player) == p,
            Err(e) => r == Err::<(), CookieError>(e) && *final(game) == *old(game)
                && *final(player) == *old(player),
        },
{
    stake(game, player, player_balance, player_balance)
}

/// Withdraws `amount` of the participant's stake, rebasing the debt on the
/// accumulator as it stands. The ledgers are unchanged on error.
pub fn unstake(game: &mut GameAccount, player: &mut PlayerAccount, amount: u64) -> (r: Result<(), CookieError>)
    ensures
        match unstake_result(*old(game), *old(player), amount) {
            Ok((g, p)) => r is Ok && *final(game) == g && *final(player) == p,
            Err(e) => r == Err::<(), CookieError>(e) && *final(game) == *old(game)
                && *final(player) == *old(player),
        },
        final(game).scaled_rewards_per_token == old(game).scaled_rewards_per_token,
{
    if amount > player.staked {
        return Err(CookieError::InsufficientStake);
    }
    remove_stake(game, player, amount)
}

/// Withdraws the participant's whole stake.
pub fn unstake_all(game: &mut GameAccount, player: &mut PlayerAccount) -> (r: Result<(), CookieError>)
    ensures
        match unstake_result(*old(game), *old(player), old(player).staked) {
            Ok((g, p)) => r is Ok && *final(game) == g && *final(player) == p,
            Err(e) => r == Err::<(), CookieError>(e) && *final(game) == *old(game)
                && *final(player) == *old(player),
        },
{
    let amount = player.staked;
    unstake(game, player, amount)
}

/// Staking an amount and at once withdrawing it again leaves both ledgers,
/// and so the participant's claimable reward, as they were.
pub proof fn lemma_stake_unstake_round_trip(g: GameAccount, p: PlayerAccount, amount: u64, balance: u64)
    requires
        stake_result(g, p, amount, balance) is Ok,
    ensures
        ({
            let (g1, p1) = stake_result(g, p, amount, balance)->Ok_0;
            let (g2, p2) = unstake_result(g1, p1, amount)->Ok_0;
            &&& unstake_result(g1, p1, amount) is Ok
            &&& g2 == g
            &&& p2 == p
            &&& claimable(g2.scaled_rewards_per_token, p2.staked, p2.scaled_payout) == claimable(
                g.scaled_rewards_per_token,
                p.staked,
                p.scaled_payout,
            )
        }),
{
}

} // verus!
