use vstd::prelude::*;

use crate::error::CookieError;
use crate::jackpot::{jackpot_won, resolve_jackpot};
use crate::rewards::{add_stake, credit, credited, staked_more};
use crate::fixed::scale;
use crate::state::{GameAccount, GameRules, PlayerAccount};

verus! {

/// Most actions in one batch.
pub const MAX_CLICKS: u64 = 1000;

/// What a batch of actions owes and mints.
#[derive(Debug, Clone, Copy, PartialEq, Eq, Structural)]
pub struct ClickReceipt {
    /// Currency owed by the participant to the pool.
    pub total_cost: u64,
    /// Tokens to mint to the pool's custody.
    pub total_mint: u64,
    /// Whether the participant's previous batch won the jackpot.
    pub jackpot: bool,
}

/// Both ledgers in the middle of a batch, with what it has cost and minted
/// so far.
#[derive(Debug, Clone, Copy)]
pub struct ClickBatch {
    pub game: GameAccount,
    pub player: PlayerAccount,
    pub total_cost: u64,
    pub total_mint: u64,
}

/// One action of a batch: charge the current price, raise it by one, split the
/// charge into `charge / dev_fee` for the treasury and the rest for the
/// stakers, and stake `tokens_on_loss` for the participant first. With no
/// stake in the pool at all, the stakers' part goes to the treasury as well.
/// `None` on overflow.
pub open spec fn click_unit(b: ClickBatch) -> Option<ClickBatch>
    recommends
        b.game.rules.dev_fee > 0,
{
    let price = b.game.rules.cost_per_click;
    let dev = price / b.game.rules.dev_fee;
    let player_amount = (price - dev) as u64;
    let reward = b.game.rules.tokens_on_loss;
    if price + 1 > u64::MAX || b.total_cost + price > u64::MAX || b.total_mint + reward > u64::MAX
        || b.game.total_clicks + 1 > u64::MAX || b.player.clicks + 1 > u64::MAX {
        None
    } else {
        let g0 = GameAccount {
            rules: GameRules { cost_per_click: (price + 1) as u64, ..b.game.rules },
            total_clicks: (b.game.total_clicks + 1) as u64,
            ..b.game
        };
        let p0 = PlayerAccount { clicks: (b.player.clicks + 1) as u64, ..b.player };
        let cost = (b.total_cost + price) as u64;
        let mint = (b.total_mint + reward) as u64;
        match staked_more(g0, p0, reward) {
            None => None,
            Some((g1, p1)) => {
                if g1.total_staked > 0 {
                    if g1.dev_fees + dev > u64::MAX {
                        None
                    } else {
                        match credited(GameAccount { dev_fees: (g1.dev_fees + dev) as u64, ..g1 }, player_amount) {
                            None => None,
                            Some(g2) => Some(ClickBatch { game: g2, player: p1, total_cost: cost, total_mint: mint }),
                        }
                    }
                } else {
                    if g1.dev_fees + price > u64::MAX {
                        None
                    } else {
                        let g2 = GameAccount { dev_fees: (g1.dev_fees + price) as u64, ..g1 };
                        Some(ClickBatch { game: g2, player: p1, total_cost: cost, total_mint: mint })
                    }
                }
            },
        }
    }
}

/// `n` actions in turn, each at the price the one before left.
pub open spec fn click_units(b: ClickBatch, n: nat) -> Option<ClickBatch>
    decreases n,
{
    if n == 0 {
        Some(b)
    } else {
        match click_units(b, (n - 1) as nat) {
            Some(c) => click_unit(c),
            None => None,
        }
    }
}

/// Both ledgers and the receipt after a batch of `clicks` actions at sequence
/// point `now`, given how the previous batch's jackpot draw came out (`roll`).
pub open spec fn click_result(
    g: GameAccount,
    p: PlayerAccount,
    clicks: u64,
    now: u64,
    roll: Result<bool, CookieError>,
) -> Result<(GameAccount, PlayerAccount, ClickReceipt), CookieError> {
    if clicks < 1 || clicks > MAX_CLICKS {
        Err(CookieError::InvalidArgument)
    } else if p.last_slot == now {
        Err(CookieError::RateLimit)
    } else if g.rules.dev_fee == 0 {
        Err(CookieError::InvalidArgument)
    } else {
        match roll {
            Err(e) => Err(e),
            Ok(won) => {
                let start = if won {
                    staked_more(g, p, g.rules.tokens_on_win)
                } else {
                    Some((g, p))
                };
                match start {
                    None => Err(CookieError::NumericalOverflow),
                    Some((g1, p1)) => {
                        let b0 = ClickBatch {
                            game: g1,
                            player: p1,
                            total_cost: 0,
                            total_mint: if won { g.rules.tokens_on_win } else { 0 },
                        };
                        match click_units(b0, clicks as nat) {
                            None => Err(CookieError::NumericalOverflow),
                            Some(b) => Ok((
                                b.game,
                                PlayerAccount { last_clicks: clicks, last_slot: now, ..b.player },
                                ClickReceipt { total_cost: b.total_cost, total_mint: b.total_mint, jackpot: won },
                            )),
                        }
                    },
                }
            },
        }
    }
}

proof fn lemma_click_units_none(b: ClickBatch, k: nat, n: nat)
    requires
        k <= n,
        click_units(b, k) is None,
    ensures
        click_units(b, n) is None,
    decreases n,
{
    if k < n {
        lemma_click_units_none(b, k, (n - 1) as nat);
    }
}

proof fn lemma_click_units_effect(b: ClickBatch, n: nat, c: ClickBatch)
    requires
        click_units(b, n) == Some(c),
    ensures
        c.game.rules.cost_per_click == b.game.rules.cost_per_click + n,
        c.total_cost == b.total_cost + n * b.game.rules.cost_per_click + n * (n - 1) / 2,
        c.game.scaled_rewards_per_token >= b.game.scaled_rewards_per_token,
    decreases n,
{
    if n > 0 {
        let m = (n - 1) as nat;
        let c0 = click_units(b, m)->Some_0;
        lemma_click_units_effect(b, m, c0);
        let p = b.game.rules.cost_per_click;
        assert(n * (n - 1) == m * (m - 1) + 2 * m) by (nonlinear_arith)
            requires
                n == m + 1,
        ;
        assert(n * p == m * p + p) by (nonlinear_arith)
            requires
                n == m + 1,
        ;
        if c0.game.total_staked + c0.game.rules.tokens_on_loss > 0 {
            let price = c0.game.rules.cost_per_click;
            let amount = ((price - price / c0.game.rules.dev_fee) as u64) as int;
            let total = c0.game.total_staked + c0.game.rules.tokens_on_loss;
            assert(amount * scale() / total >= 0) by (nonlinear_arith)
                requires
                    amount >= 0,
                    scale() > 0,
                    total > 0,
            ;
        }
    }
}

/// Runs one action of a batch.
fn process_click(b: &mut ClickBatch) -> (r: Result<(), CookieError>)
    requires
        old(b).game.rules.dev_fee > 0,
    ensures
        match click_unit(*old(b)) {
            Some(c) => r is Ok && *final(b) == c,
            None => r == Err::<(), CookieError>(CookieError::NumericalOverflow),
        },
{
    let price = b.game.rules.cost_per_click;
    let reward = b.game.rules.tokens_on_loss;
    if price == u64::MAX || b.total_cost > u64::MAX - price || b.total_mint > u64::MAX - reward
        || b.game.total_clicks == u64::MAX || b.player.clicks == u64::MAX {
        return Err(CookieError::NumericalOverflow);
    }
    let dev = price / b.game.rules.dev_fee;
    let player_amount = price - dev;
    let mut game = b.game;
    let mut player = b.player;
    game.rules.cost_per_click = price + 1;
    game.total_clicks = game.total_clicks + 1;
    player.clicks = player.clicks + 1;
    add_stake(&mut game, &mut player, reward)?;
    if game.total_staked > 0 {
        if game.dev_fees > u64::MAX - dev {
            return Err(CookieError::NumericalOverflow);
        }
        game.dev_fees = game.dev_fees + dev;
        credit(&mut game, player_amount)?;
    } else {
        if game.dev_fees > u64::MAX - price {
            return Err(CookieError::NumericalOverflow);
        }
        game.dev_fees = game.dev_fees + price;
    }
    b.game = game;
    b.player = player;
    b.total_cost = b.total_cost + price;
    b.total_mint = b.total_mint + reward;
    Ok(())
}

/// Runs a batch of `clicks` actions whose previous batch's jackpot draw came
/// out as `won`: on a win, `tokens_on_win` are staked for the participant
/// first; then each action is charged in turn; the batch is then recorded as
/// pending at `current_slot`. The ledgers are unchanged on error.
pub fn apply_click(
    game: &mut GameAccount,
    player: &mut PlayerAccount,
    clicks: u64,
    current_slot: u64,
    won: bool,
) -> (r: Result<ClickReceipt, CookieError>)
    ensures
        match click_result(*old(game), *old(player), clicks, current_slot, Ok(won)) {
            Ok((g, p, receipt)) => r == Ok::<ClickReceipt, CookieError>(receipt) && *final(game) == g
                && *final(player) == p,
            Err(e) => r == Err::<ClickReceipt, CookieError>(e) && *final(game) == *old(game)
                && *final(player) == *old(player),
        },
        final(game).scaled_rewards_per_token >= old(game).scaled_rewards_per_token,
{
    if clicks == 0 || clicks > MAX_CLICKS {
        return Err(CookieError::InvalidArgument);
    }
    if player.last_slot == current_slot {
        return Err(CookieError::RateLimit);
    }
    if game.rules.dev_fee == 0 {
        return Err(CookieError::InvalidArgument);
    }
    let mut g = *game;
    let mut p = *player;
    let mut total_mint: u64 = 0;
    if won {
        let prize = g.rules.tokens_on_win;
        add_stake(&mut g, &mut p, prize)?;
        total_mint = prize;
    }
    let ghost b0 = ClickBatch { game: g, player: p, total_cost: 0, total_mint };
    let mut b = ClickBatch { game: g, player: p, total_cost: 0, total_mint };
    let mut i: u64 = 0;
    while i < clicks
        invariant
            i <= clicks,
            1 <= clicks <= MAX_CLICKS,
            old(player).last_slot != current_slot,
            click_units(b0, i as nat) == Some(b),
            b.game.rules.dev_fee == old(game).rules.dev_fee,
            old(game).rules.dev_fee > 0,
            *game == *old(game),
            *player == *old(player),
            won ==> staked_more(*old(game), *old(player), old(game).rules.tokens_on_win) == Some(
                (b0.game, b0.player),
            ),
            !won ==> b0.game == *old(game) && b0.player == *old(player),
            b0.total_cost == 0,
            b0.total_mint == (if won { old(game).rules.tokens_on_win } else { 0 }),
        decreases clicks - i,
    {
        let ghost prev = b;
        let res = process_click(&mut b);
        if res.is_err() {
            proof {
                assert(click_units(b0, (i + 1) as nat) == click_unit(prev));
                lemma_click_units_none(b0, (i + 1) as nat, clicks as nat);
            }
            return Err(CookieError::NumericalOverflow);
        }
        i = i + 1;
    }
    proof {
        lemma_click_units_effect(b0, clicks as nat, b);
    }
    b.player.last_clicks = clicks;
    b.player.last_slot = current_slot;
    *game = b.game;
    *player = b.player;
    Ok(ClickReceipt { total_cost: b.total_cost, total_mint: b.total_mint, jackpot: won })
}

/// Runs a batch of `clicks` actions for the participant with key `player_key`
/// at `current_slot`: first decides the previous batch's jackpot against the
/// entropy history `slot_hashes`, then runs the batch as `apply_click` does.
/// The ledgers are unchanged on error.
pub fn click(
    game: &mut GameAccount,
    player: &mut PlayerAccount,
    clicks: u64,
    current_slot: u64,
    slot_hashes: &[u8],
    player_key: &[u8; 32],
) -> (r: Result<ClickReceipt, CookieError>)
    ensures
        match click_result(
            *old(game),
            *old(player),
            clicks,
            current_slot,
            jackpot_won(slot_hashes@, player_key@, old(player).last_slot, old(player).last_clicks,
                old(game).rules.win_chance, current_slot),
        ) {
            Ok((g, p, receipt)) => r == Ok::<ClickReceipt, CookieError>(receipt) && *final(game) == g
                && *final(player) == p,
            Err(e) => r == Err::<ClickReceipt, CookieError>(e) && *final(game) == *old(game)
                && *final(player) == *old(player),
        },
        final(game).scaled_rewards_per_token >= old(game).scaled_rewards_per_token,
{
    if clicks == 0 || clicks > MAX_CLICKS {
        return Err(CookieError::InvalidArgument);
    }
    if player.last_slot == current_slot {
        return Err(CookieError::RateLimit);
    }
    if game.rules.dev_fee == 0 {
        return Err(CookieError::InvalidArgument);
    }
    let won = resolve_jackpot(
        slot_hashes,
        player_key,
        player.last_slot,
        player.last_clicks,
        game.rules.win_chance,
        current_slot,
    )?;
    apply_click(game, player, clicks, current_slot, won)
}

} // verus!

verus! {

/// Pricing of a batch: a batch of `n` actions that starts at price `p` costs
/// `n * p + n * (n - 1) / 2` in all and leaves the price at `p + n`.
pub proof fn lemma_click_batch_pricing(
    g: GameAccount,
    p: PlayerAccount,
    clicks: u64,
    now: u64,
    roll: Result<bool, CookieError>,
)
    requires
        click_result(g, p, clicks, now, roll) is Ok,
    ensures
        ({
            let (g2, p2, receipt) = click_result(g, p, clicks, now, roll)->Ok_0;
            let n = clicks as int;
            let price = g.rules.cost_per_click as int;
            &&& receipt.total_cost == n * price + n * (n - 1) / 2
            &&& g2.rules.cost_per_click == price + n
        }),
{
    let won = roll->Ok_0;
    let (g1, p1) = if won {
        staked_more(g, p, g.rules.tokens_on_win)->Some_0
    } else {
        (g, p)
    };
    let b0 = ClickBatch {
        game: g1,
        player: p1,
        total_cost: 0,
        total_mint: if won { g.rules.tokens_on_win } else { 0 },
    };
    lemma_click_units_effect(b0, clicks as nat, click_units(b0, clicks as nat)->Some_0);
}

/// The reward accumulator never decreases over a batch of actions.
pub proof fn lemma_click_accumulator_monotone(
    g: GameAccount,
    p: PlayerAccount,
    clicks: u64,
    now: u64,
    roll: Result<bool, CookieError>,
)
    requires
        click_result(g, p, clicks, now, roll) is Ok,
    ensures
        click_result(g, p, clicks, now, roll)->Ok_0.0.scaled_rewards_per_token >= g.scaled_rewards_per_token,
{
    let won = roll->Ok_0;
    let (g1, p1) = if won {
        staked_more(g, p, g.rules.tokens_on_win)->Some_0
    } else {
        (g, p)
    };
    let b0 = ClickBatch {
        game: g1,
        player: p1,
        total_cost: 0,
        total_mint: if won { g.rules.tokens_on_win } else { 0 },
    };
    lemma_click_units_effect(b0, clicks as nat, click_units(b0, clicks as nat)->Some_0);
}

} // verus!
