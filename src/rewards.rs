use vstd::prelude::*;
use vstd::arithmetic::div_mod::{lemma_div_is_ordered, lemma_fundamental_div_mod};

use crate::error::CookieError;
use crate::fixed::{scale, FLOAT_SCALAR};
use crate::state::{GameAccount, PlayerAccount};

verus! {

/// The reward accrued by a stake against the accumulator `r` and the reward
/// debt `debt`: floor((r * staked - debt) / S).
pub open spec fn accrued(r: int, staked: int, debt: int) -> int {
    (r * staked - debt) / scale()
}

/// What `calculate_rewards` gives: the accrued reward, or `NumericalOverflow`
/// where `r * staked` leaves u128, the numerator is negative, or the reward
/// does not fit in u64.
pub open spec fn claimable(r: u128, staked: u64, debt: i128) -> Result<u64, CookieError> {
    let total = r as int * staked as int;
    let num = total - debt as int;
    if total > u128::MAX || num < 0 || accrued(r as int, staked as int, debt as int) > u64::MAX {
        Err(CookieError::NumericalOverflow)
    } else {
        Ok(accrued(r as int, staked as int, debt as int) as u64)
    }
}

/// The participant ledger after its accrued reward is paid out, with the
/// amount paid: the debt grows by `amount * S`.
pub open spec fn settled(r: u128, p: PlayerAccount) -> Result<(PlayerAccount, u64), CookieError> {
    match claimable(r, p.staked, p.scaled_payout) {
        Err(e) => Err(e),
        Ok(amount) => {
            let debt = p.scaled_payout + amount * scale();
            if debt > i128::MAX {
                Err(CookieError::NumericalOverflow)
            } else {
                Ok((PlayerAccount { scaled_payout: debt as i128, ..p }, amount))
            }
        },
    }
}

/// Both ledgers after `amount` tokens join the participant's stake: the debt
/// moves by `amount * R`, so that nothing accrued so far changes. `None` on
/// overflow.
pub open spec fn staked_more(g: GameAccount, p: PlayerAccount, amount: u64) -> Option<(GameAccount, PlayerAccount)> {
    let total = g.total_staked + amount;
    let staked = p.staked + amount;
    let delta = amount * g.scaled_rewards_per_token;
    let debt = p.scaled_payout + delta;
    if total > u64::MAX || staked > u64::MAX || delta > i128::MAX || debt > i128::MAX {
        None
    } else {
        Some((
            GameAccount { total_staked: total as u64, ..g },
            PlayerAccount { staked: staked as u64, scaled_payout: debt as i128, ..p },
        ))
    }
}

/// Both ledgers after `amount` tokens leave the participant's stake, the debt
/// moving by `-amount * R`. `None` on underflow or overflow.
pub open spec fn staked_less(g: GameAccount, p: PlayerAccount, amount: u64) -> Option<(GameAccount, PlayerAccount)> {
    let total = g.total_staked - amount;
    let staked = p.staked - amount;
    let delta = amount * g.scaled_rewards_per_token;
    let debt = p.scaled_payout - delta;
    if total < 0 || staked < 0 || delta > i128::MAX || debt < i128::MIN {
        None
    } else {
        Some((
            GameAccount { total_staked: total as u64, ..g },
            PlayerAccount { staked: staked as u64, scaled_payout: debt as i128, ..p },
        ))
    }
}

/// The pool ledger after `amount` is shared among the stakers:
/// `R += amount * S / total_staked`. `None` on overflow.
pub open spec fn credited(g: GameAccount, amount: u64) -> Option<GameAccount>
    recommends
        g.total_staked > 0,
{
    let r = g.scaled_rewards_per_token + amount * scale() / (g.total_staked as int);
    if r > u128::MAX {
        None
    } else {
        Some(GameAccount { scaled_rewards_per_token: r as u128, ..g })
    }
}

/// The participant's accrued reward, floor((R * staked - debt) / S).
pub fn calculate_rewards(scaled_rewards_per_token: u128, player_staked: u64, player_scaled_payout: i128) -> (r: Result<u64, CookieError>)
    ensures
        r == claimable(scaled_rewards_per_token, player_staked, player_scaled_payout),
{
    let total = match scaled_rewards_per_token.checked_mul(player_staked as u128) {
        Some(t) => t,
        None => return Err(CookieError::NumericalOverflow),
    };
    let ghost num = total - player_scaled_payout;
    let quotient: u128;
    if player_scaled_payout >= 0 {
        let debt = player_scaled_payout as u128;
        if debt > total {
            return Err(CookieError::NumericalOverflow);
        }
        quotient = (total - debt) / FLOAT_SCALAR;
    } else {
        let debt = (-(player_scaled_payout + 1)) as u128 + 1;
        if total > u128::MAX - debt {
            proof {
                lemma_div_is_ordered(0x1_0000_0000_0000_0000_0000_0000_0000_0000int, num, scale());
            }
            return Err(CookieError::NumericalOverflow);
        }
        quotient = (total + debt) / FLOAT_SCALAR;
    }
    if quotient > u64::MAX as u128 {
        return Err(CookieError::NumericalOverflow);
    }
    Ok(quotient as u64)
}

/// `amount * r` as a signed debt adjustment, if it fits in i128.
fn debt_delta(amount: u64, r: u128) -> (res: Result<i128, CookieError>)
    ensures
        amount * r <= i128::MAX ==> res == Ok::<i128, CookieError>((amount * r) as i128),
        amount * r > i128::MAX ==> res == Err::<i128, CookieError>(CookieError::NumericalOverflow),
{
    if r > i128::MAX as u128 {
        if amount == 0 {
            return Ok(0);
        }
        proof {
            assert(amount * r >= r) by (nonlinear_arith)
                requires
                    amount >= 1,
                    r >= 0,
            ;
        }
        return Err(CookieError::NumericalOverflow);
    }
    match (amount as i128).checked_mul(r as i128) {
        Some(d) => Ok(d),
        None => Err(CookieError::NumericalOverflow),
    }
}

impl PlayerAccount {
    /// Pays out the accrued reward: returns it and raises the debt by
    /// `amount * S`, so that nothing more is claimable until the accumulator
    /// or the stake changes.
    pub fn settle(&mut self, scaled_rewards_per_token: u128) -> (r: Result<u64, CookieError>)
        ensures
            match settled(scaled_rewards_per_token, *old(self)) {
                Ok((p, amount)) => r == Ok::<u64, CookieError>(amount) && *final(self) == p,
                Err(e) => r == Err::<u64, CookieError>(e) && *final(self) == *old(self),
            },
    {
        let amount = calculate_rewards(scaled_rewards_per_token, self.staked, self.scaled_payout)?;
        let scaled = (amount as i128) * (FLOAT_SCALAR as i128);
        match self.scaled_payout.checked_add(scaled) {
            Some(debt) => {
                self.scaled_payout = debt;
                Ok(amount)
            },
            None => Err(CookieError::NumericalOverflow),
        }
    }
}

/// Adds `amount` to the participant's stake and to the pool's total,
/// rebasing the debt by `amount * R`.
pub fn add_stake(game: &mut GameAccount, player: &mut PlayerAccount, amount: u64) -> (r: Result<(), CookieError>)
    ensures
        match staked_more(*old(game), *old(player), amount) {
            Some((g, p)) => r is Ok && *final(game) == g && *final(player) == p,
            None => r == Err::<(), CookieError>(CookieError::NumericalOverflow)
                && *final(game) == *old(game) && *final(player) == *old(player),
        },
{
    let total = match game.total_staked.checked_add(amount) {
        Some(t) => t,
        None => return Err(CookieError::NumericalOverflow),
    };
    let staked = match player.staked.checked_add(amount) {
        Some(s) => s,
        None => return Err(CookieError::NumericalOverflow),
    };
    let delta = debt_delta(amount, game.scaled_rewards_per_token)?;
    let debt = match player.scaled_payout.checked_add(delta) {
        Some(d) => d,
        None => return Err(CookieError::NumericalOverflow),
    };
    game.total_staked = total;
    player.staked = staked;
    player.scaled_payout = debt;
    Ok(())
}

/// Takes `amount` from the participant's stake and from the pool's total,
/// rebasing the debt by `-amount * R`.
pub fn remove_stake(game: &mut GameAccount, player: &mut PlayerAccount, amount: u64) -> (r: Result<(), CookieError>)
    ensures
        match staked_less(*old(game), *old(player), amount) {
            Some((g, p)) => r is Ok && *final(game) == g && *final(player) == p,
            None => r == Err::<(), CookieError>(CookieError::NumericalOverflow)
                && *final(game) == *old(game) && *final(player) == *old(player),
        },
{
    let total = match game.total_staked.checked_sub(amount) {
        Some(t) => t,
        None => return Err(CookieError::NumericalOverflow),
    };
    let staked = match player.staked.checked_sub(amount) {
        Some(s) => s,
        None => return Err(CookieError::NumericalOverflow),
    };
    let delta = debt_delta(amount, game.scaled_rewards_per_token)?;
    let debt = match player.scaled_payout.checked_sub(delta) {
        Some(d) => d,
        None => return Err(CookieError::NumericalOverflow),
    };
    game.total_staked = total;
    player.staked = staked;
    player.scaled_payout = debt;
    Ok(())
}

/// Shares `amount` among the current stakers by raising the accumulator.
/// Only called with stake in the pool.
pub fn credit(game: &mut GameAccount, amount: u64) -> (r: Result<(), CookieError>)
    requires
        old(game).total_staked > 0,
    ensures
        match credited(*old(game), amount) {
            Some(g) => r is Ok && *final(game) == g,
            None => r == Err::<(), CookieError>(CookieError::NumericalOverflow) && *final(game) == *old(game),
        },
        final(game).scaled_rewards_per_token >= old(game).scaled_rewards_per_token,
{
    let share = (amount as u128) * FLOAT_SCALAR / (game.total_staked as u128);
    match game.scaled_rewards_per_token.checked_add(share) {
        Some(r) => {
            game.scaled_rewards_per_token = r;
            Ok(())
        },
        None => Err(CookieError::NumericalOverflow),
    }
}

/// Once the accrued reward is paid out, nothing more is claimable until the
/// accumulator or the stake changes.
pub proof fn lemma_nothing_claimable_after_settle(r: u128, p: PlayerAccount)
    requires
        settled(r, p) is Ok,
    ensures
        ({
            let p2 = settled(r, p)->Ok_0.0;
            claimable(r, p2.staked, p2.scaled_payout) == Ok::<u64, CookieError>(0)
        }),
{
    let (p2, amount) = settled(r, p)->Ok_0;
    let num = r as int * p.staked as int - p.scaled_payout as int;
    lemma_fundamental_div_mod(num, scale());
    let rest = num - amount * scale();
    assert(rest / scale() == 0) by (nonlinear_arith)
        requires
            0 <= rest < scale(),
    ;
}

/// A participant ledger is consistent with the accumulator `r` when its debt
/// does not exceed `r * staked`, so that its accrued reward is not negative.
pub open spec fn debt_covered(r: u128, p: PlayerAccount) -> bool {
    p.scaled_payout <= r as int * p.staked as int
}

/// Consistency is kept by every change the ledgers go through: stake added
/// or withdrawn, a payout, and a growing accumulator.
pub proof fn lemma_debt_stays_covered(g: GameAccount, p: PlayerAccount, amount: u64, later: u128)
    requires
        debt_covered(g.scaled_rewards_per_token, p),
    ensures
        staked_more(g, p, amount) is Some ==> debt_covered(
            staked_more(g, p, amount)->Some_0.0.scaled_rewards_per_token,
            staked_more(g, p, amount)->Some_0.1,
        ),
        staked_less(g, p, amount) is Some ==> debt_covered(
            staked_less(g, p, amount)->Some_0.0.scaled_rewards_per_token,
            staked_less(g, p, amount)->Some_0.1,
        ),
        settled(g.scaled_rewards_per_token, p) is Ok ==> debt_covered(
            g.scaled_rewards_per_token,
            settled(g.scaled_rewards_per_token, p)->Ok_0.0,
        ),
        later >= g.scaled_rewards_per_token ==> debt_covered(later, p),
{
    let r = g.scaled_rewards_per_token as int;
    let st = p.staked as int;
    let a = amount as int;
    assert(r * (st + a) == r * st + a * r) by (nonlinear_arith);
    assert(r * (st - a) == r * st - a * r) by (nonlinear_arith);
    if later >= g.scaled_rewards_per_token {
        assert(later as int * st >= r * st) by (nonlinear_arith)
            requires
                later >= r,
                st >= 0,
        ;
    }
    if settled(g.scaled_rewards_per_token, p) is Ok {
        let num = r * st - p.scaled_payout as int;
        lemma_fundamental_div_mod(num, scale());
    }
}

} // verus!
