use vstd::prelude::*;

use crate::error::CookieError;
use crate::jackpot::{jackpot_outcome, outcome_of, JackpotOutcome};
use crate::rewards::{add_stake, settled, staked_more};
use crate::state::{GameAccount, PlayerAccount};

verus! {

/// Pays out the participant's accrued reward: returns the amount to transfer
/// to them and moves their debt so that nothing more is claimable until the
/// accumulator or their stake changes. A zero amount is a valid outcome.
pub fn claim_rewards(game: &GameAccount, player: &mut PlayerAccount) -> (r: Result<u64, CookieError>)
    ensures
        match settled(game.scaled_rewards_per_token, *old(player)) {
            Ok((p, amount)) => r == Ok::<u64, CookieError>(amount) && *final(player) == p,
            Err(e) => r == Err::<u64, CookieError>(e) && *final(player) == *old(player),
        },
{
    player.settle(game.scaled_rewards_per_token)
}

/// The participant ledger with no batch pending.
pub open spec fn cleared(p: PlayerAccount) -> PlayerAccount {
    PlayerAccount { last_clicks: 0, last_slot: 0, ..p }
}

/// Both ledgers after a stand-alone resolution whose draw came out as
/// `outcome`, with the tokens to mint: a win stakes `tokens_on_win` for the
/// participant; any outcome but `NotYet` clears the pending batch.
pub open spec fn resolve_result(g: GameAccount, p: PlayerAccount, outcome: Result<JackpotOutcome, CookieError>) -> Result<
    (GameAccount, PlayerAccount, u64),
    CookieError,
> {
    match outcome {
        Err(e) => Err(e),
        Ok(JackpotOutcome::NotYet) => Ok((g, p, 0)),
        Ok(JackpotOutcome::Won) => match staked_more(g, p, g.rules.tokens_on_win) {
            None => Err(CookieError::NumericalOverflow),
            Some((g1, p1)) => Ok((g1, cleared(p1), g.rules.tokens_on_win)),
        },
        Ok(_) => Ok((g, cleared(p), 0)),
    }
}

/// Applies a decided draw of the participant's pending batch; returns the
/// tokens to mint. The ledgers are unchanged on error.
pub fn apply_resolution(game: &mut GameAccount, player: &mut PlayerAccount, outcome: JackpotOutcome) -> (r: Result<u64, CookieError>)
    ensures
        match resolve_result(*old(game), *old(player), Ok(outcome)) {
            Ok((g, p, minted)) => r == Ok::<u64, CookieError>(minted) && *final(game) == g
                && *final(player) == p,
            Err(e) => r == Err::<u64, CookieError>(e) && *final(game) == *old(game)
                && *final(player) == *old(player),
        },
        final(game).scaled_rewards_per_token == old(game).scaled_rewards_per_token,
{
    let mut minted: u64 = 0;
    match outcome {
        JackpotOutcome::NotYet => {
            return Ok(0);
        },
        JackpotOutcome::Won => {
            let prize = game.rules.tokens_on_win;
            add_stake(game, player, prize)?;
            minted = prize;
        },
        _ => {},
    }
    player.last_clicks = 0;
    player.last_slot = 0;
    Ok(minted)
}

/// Resolves the participant's pending batch on its own, at `current_slot`,
/// against the entropy history `slot_hashes`; returns the tokens to mint.
/// The ledgers are unchanged on error.
pub fn resolve(
    game: &mut GameAccount,
    player: &mut PlayerAccount,
    slot_hashes: &[u8],
    player_key: &[u8; 32],
    current_slot: u64,
) -> (r: Result<u64, CookieError>)
    ensures
        match resolve_result(
            *old(game),
            *old(player),
            outcome_of(slot_hashes@, player_key@, old(player).last_slot, old(player).last_clicks,
                old(game).rules.win_chance, current_slot),
        ) {
            Ok((g, p, minted)) => r == Ok::<u64, CookieError>(minted) && *final(game) == g
                && *final(player) == p,
            Err(e) => r == Err::<u64, CookieError>(e) && *final(game) == *old(game)
                && *final(player) == *old(player),
        },
        final(game).scaled_rewards_per_token == old(game).scaled_rewards_per_token,
{
    let outcome = jackpot_outcome(
        slot_hashes,
        player_key,
        player.last_slot,
        player.last_clicks,
        game.rules.win_chance,
        current_slot,
    )?;
    apply_resolution(game, player, outcome)
}

} // verus!
