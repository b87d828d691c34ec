use cookie::claim::{apply_resolution, claim_rewards};
use cookie::click::{apply_click, ClickReceipt};
use cookie::error::CookieError;
use cookie::fixed::FLOAT_SCALAR;
use cookie::jackpot::JackpotOutcome;
use cookie::rewards::calculate_rewards;
use cookie::stake::{stake, stake_all, unstake, unstake_all};
use cookie::state::{initialize, initialize_with_token, GameAccount, GameRules, PlayerAccount, TokenDetails};
use cookie::treasury::withdraw;

fn rules(price: u64, fee_divisor: u64, on_loss: u64) -> GameRules {
    GameRules {
        cost_per_click: price,
        win_chance: 1_000_000_000_000,
        tokens_on_win: 500,
        tokens_on_loss: on_loss,
        dev_fee: fee_divisor,
        dev_1: [1u8; 32],
        dev_2: [2u8; 32],
        dev_3: [3u8; 32],
    }
}

fn game(price: u64, fee_divisor: u64, on_loss: u64) -> GameAccount {
    initialize([9u8; 32], [8u8; 32], rules(price, fee_divisor, on_loss))
}

#[test]
fn initialize_starts_empty() {
    let g = game(100, 10, 0);
    assert_eq!(g.scaled_rewards_per_token, 0);
    assert_eq!(g.total_staked, 0);
    assert_eq!(g.dev_fees, 0);
    assert_eq!(g.total_clicks, 0);
    assert_eq!(g.authority, [9u8; 32]);
    assert_eq!(g.mint, [8u8; 32]);
    assert_eq!(g.rules.cost_per_click, 100);
}

#[test]
fn initialize_with_token_gives_supply() {
    let details = TokenDetails {
        name: "Cookie".to_string(),
        symbol: "CKE".to_string(),
        uri: "https://example.invalid/cookie.json".to_string(),
        initial_supply: 1_000_000,
    };
    let (g, supply) = initialize_with_token([9u8; 32], [8u8; 32], rules(5, 4, 1), &details);
    assert_eq!(supply, 1_000_000);
    assert_eq!(g.total_staked, 0);
    assert_eq!(g.rules.dev_fee, 4);
}

#[test]
fn batch_example_prices_and_splits() {
    // A staker already holds 1000 units; actions mint nothing.
    let mut g = game(100, 10, 0);
    let mut staker = PlayerAccount::new();
    stake(&mut g, &mut staker, 1000, 1000).unwrap();
    let mut p = PlayerAccount::new();
    let receipt = apply_click(&mut g, &mut p, 3, 50, false).unwrap();
    assert_eq!(receipt, ClickReceipt { total_cost: 303, total_mint: 0, jackpot: false });
    assert_eq!(g.rules.cost_per_click, 103);
    assert_eq!(g.dev_fees, 30);
    assert_eq!(g.total_clicks, 3);
    let s = FLOAT_SCALAR;
    let expected_r = 90 * s / 1000 + 91 * s / 1000 + 92 * s / 1000;
    assert_eq!(g.scaled_rewards_per_token, expected_r);
    assert_eq!(p.clicks, 3);
    assert_eq!(p.last_clicks, 3);
    assert_eq!(p.last_slot, 50);
    // The staker can claim floor(273 * S/1000 summed / S) = 272 (rounded down per unit).
    let claimed = claim_rewards(&g, &mut staker).unwrap();
    assert_eq!(claimed as u128, expected_r * 1000 / s);
    assert_eq!(claimed, 272);
}

#[test]
fn batch_pricing_closed_form() {
    for n in [1u64, 2, 7, 100, 1000] {
        let mut g = game(37, 3, 2);
        let mut p = PlayerAccount::new();
        let receipt = apply_click(&mut g, &mut p, n, 1, false).unwrap();
        assert_eq!(receipt.total_cost, n * 37 + n * (n - 1) / 2);
        assert_eq!(g.rules.cost_per_click, 37 + n);
        assert_eq!(receipt.total_mint, 2 * n);
        assert_eq!(p.staked, 2 * n);
        assert_eq!(g.total_staked, 2 * n);
    }
}

#[test]
fn batch_mints_loss_reward_and_stakes_it() {
    let mut g = game(100, 10, 5);
    let mut p = PlayerAccount::new();
    let receipt = apply_click(&mut g, &mut p, 1, 7, false).unwrap();
    assert_eq!(receipt.total_mint, 5);
    assert_eq!(p.staked, 5);
    // The player's own fresh stake is the only one: 90 units over 5 staked.
    assert_eq!(g.scaled_rewards_per_token, 90 * FLOAT_SCALAR / 5);
    assert_eq!(p.scaled_payout, 0);
    assert_eq!(claim_rewards(&g, &mut p).unwrap(), 90);
}

#[test]
fn batch_without_stakers_routes_share_to_treasury() {
    let mut g = game(100, 10, 0);
    let mut p = PlayerAccount::new();
    let receipt = apply_click(&mut g, &mut p, 3, 1, false).unwrap();
    assert_eq!(receipt.total_cost, 303);
    assert_eq!(g.dev_fees, 303);
    assert_eq!(g.scaled_rewards_per_token, 0);
}

#[test]
fn batch_with_jackpot_stakes_prize_first() {
    let mut g = game(10, 2, 1);
    let mut p = PlayerAccount::new();
    let receipt = apply_click(&mut g, &mut p, 2, 3, true).unwrap();
    assert_eq!(receipt, ClickReceipt { total_cost: 21, total_mint: 502, jackpot: true });
    assert_eq!(p.staked, 502);
    assert_eq!(g.total_staked, 502);
}

#[test]
fn batch_size_out_of_range() {
    let mut g = game(100, 10, 1);
    let mut p = PlayerAccount::new();
    assert_eq!(apply_click(&mut g, &mut p, 0, 1, false), Err(CookieError::InvalidArgument));
    assert_eq!(apply_click(&mut g, &mut p, 1001, 1, false), Err(CookieError::InvalidArgument));
    assert_eq!(g.rules.cost_per_click, 100);
    assert_eq!(p.clicks, 0);
}

#[test]
fn batch_with_zero_fee_divisor_rejected() {
    let mut g = game(100, 0, 1);
    let mut p = PlayerAccount::new();
    assert_eq!(apply_click(&mut g, &mut p, 1, 1, false), Err(CookieError::InvalidArgument));
}

#[test]
fn second_batch_same_slot_rate_limited() {
    let mut g = game(100, 10, 1);
    let mut p = PlayerAccount::new();
    apply_click(&mut g, &mut p, 1, 42, false).unwrap();
    assert_eq!(apply_click(&mut g, &mut p, 1, 42, false), Err(CookieError::RateLimit));
    assert_eq!(g.rules.cost_per_click, 101);
}

#[test]
fn batch_overflow_leaves_ledgers_unchanged() {
    let mut g = game(u64::MAX - 1, 10, 1);
    let mut p = PlayerAccount::new();
    assert_eq!(apply_click(&mut g, &mut p, 2, 1, false), Err(CookieError::NumericalOverflow));
    assert_eq!(g.rules.cost_per_click, u64::MAX - 1);
    assert_eq!(g.total_staked, 0);
    assert_eq!(p.staked, 0);
    assert_eq!(p.clicks, 0);
}

#[test]
fn accumulator_example() {
    let s = FLOAT_SCALAR;
    let r = calculate_rewards(5 * s, 1000, (4 * s * 1000) as i128);
    assert_eq!(r, Ok(1000));
}

#[test]
fn accumulator_negative_debt() {
    let s = FLOAT_SCALAR;
    assert_eq!(calculate_rewards(s, 10, -(5 * s as i128)), Ok(15));
    assert_eq!(calculate_rewards(0, 0, 0), Ok(0));
}

#[test]
fn accumulator_floors() {
    let s = FLOAT_SCALAR;
    assert_eq!(calculate_rewards(s + s / 2, 3, 0), Ok(4));
}

#[test]
fn accumulator_overflow_and_inconsistency() {
    let s = FLOAT_SCALAR;
    assert_eq!(calculate_rewards(u128::MAX, 2, 0), Err(CookieError::NumericalOverflow));
    assert_eq!(calculate_rewards(s, 1, (2 * s) as i128), Err(CookieError::NumericalOverflow));
    assert_eq!(calculate_rewards(u128::MAX / 2, 1, 0), Err(CookieError::NumericalOverflow));
}

#[test]
fn settle_leaves_nothing_claimable() {
    let s = FLOAT_SCALAR;
    let mut g = game(1, 1, 0);
    g.scaled_rewards_per_token = 7 * s + 12345;
    let mut p = PlayerAccount::new();
    p.staked = 300;
    p.scaled_payout = (2 * s) as i128;
    let paid = claim_rewards(&g, &mut p).unwrap();
    assert_eq!(paid as u128, ((7 * s + 12345) * 300 - 2 * s) / s);
    assert_eq!(calculate_rewards(g.scaled_rewards_per_token, p.staked, p.scaled_payout), Ok(0));
    assert_eq!(claim_rewards(&g, &mut p), Ok(0));
}

#[test]
fn claim_with_zero_reward_is_no_op() {
    let g = game(1, 1, 0);
    let mut p = PlayerAccount::new();
    assert_eq!(claim_rewards(&g, &mut p), Ok(0));
    assert_eq!(p.scaled_payout, 0);
}

#[test]
fn stake_then_unstake_round_trip() {
    let s = FLOAT_SCALAR;
    let mut g = game(1, 1, 0);
    g.scaled_rewards_per_token = 3 * s + 17;
    g.total_staked = 50;
    let mut p = PlayerAccount::new();
    p.staked = 50;
    p.scaled_payout = s as i128;
    let before = calculate_rewards(g.scaled_rewards_per_token, p.staked, p.scaled_payout);
    stake(&mut g, &mut p, 20, 25).unwrap();
    assert_eq!(p.staked, 70);
    assert_eq!(g.total_staked, 70);
    assert_eq!(p.scaled_payout, s as i128 + 20 * (3 * s + 17) as i128);
    unstake(&mut g, &mut p, 20).unwrap();
    assert_eq!(p.staked, 50);
    assert_eq!(p.scaled_payout, s as i128);
    assert_eq!(calculate_rewards(g.scaled_rewards_per_token, p.staked, p.scaled_payout), before);
}

#[test]
fn stake_beyond_balance_rejected() {
    let mut g = game(1, 1, 0);
    let mut p = PlayerAccount::new();
    assert_eq!(stake(&mut g, &mut p, 11, 10), Err(CookieError::InsufficientBalance));
    assert_eq!(p.staked, 0);
}

#[test]
fn stake_all_and_unstake_all() {
    let mut g = game(1, 1, 0);
    let mut p = PlayerAccount::new();
    stake_all(&mut g, &mut p, 77).unwrap();
    assert_eq!(p.staked, 77);
    assert_eq!(g.total_staked, 77);
    unstake_all(&mut g, &mut p).unwrap();
    assert_eq!(p.staked, 0);
    assert_eq!(g.total_staked, 0);
}

#[test]
fn unstake_beyond_stake_rejected() {
    let mut g = game(1, 1, 0);
    let mut p = PlayerAccount::new();
    stake(&mut g, &mut p, 5, 5).unwrap();
    assert_eq!(unstake(&mut g, &mut p, 6), Err(CookieError::InsufficientStake));
    assert_eq!(p.staked, 5);
}

#[test]
fn stake_debt_overflow_rejected() {
    let mut g = game(1, 1, 0);
    g.scaled_rewards_per_token = u128::MAX;
    let mut p = PlayerAccount::new();
    assert_eq!(stake(&mut g, &mut p, 2, 2), Err(CookieError::NumericalOverflow));
    assert_eq!(p.staked, 0);
    assert_eq!(g.total_staked, 0);
}

#[test]
fn treasury_example() {
    let mut g = game(1, 1, 0);
    g.dev_fees = 10;
    assert_eq!(withdraw(&mut g, 10), 3);
    assert_eq!(g.dev_fees, 1);
}

#[test]
fn treasury_limited_by_balance() {
    let mut g = game(1, 1, 0);
    g.dev_fees = 100;
    assert_eq!(withdraw(&mut g, 8), 2);
    assert_eq!(g.dev_fees, 94);
    g.dev_fees = 2;
    assert_eq!(withdraw(&mut g, 100), 0);
    assert_eq!(g.dev_fees, 2);
}

#[test]
fn resolution_win_stakes_prize_and_clears() {
    let mut g = game(1, 1, 0);
    let mut p = PlayerAccount::new();
    p.last_clicks = 4;
    p.last_slot = 9;
    assert_eq!(apply_resolution(&mut g, &mut p, JackpotOutcome::Won), Ok(500));
    assert_eq!(p.staked, 500);
    assert_eq!(g.total_staked, 500);
    assert_eq!(p.last_clicks, 0);
    assert_eq!(p.last_slot, 0);
}

#[test]
fn resolution_not_yet_keeps_pending() {
    let mut g = game(1, 1, 0);
    let mut p = PlayerAccount::new();
    p.last_clicks = 4;
    p.last_slot = 9;
    assert_eq!(apply_resolution(&mut g, &mut p, JackpotOutcome::NotYet), Ok(0));
    assert_eq!(p.last_slot, 9);
    assert_eq!(apply_resolution(&mut g, &mut p, JackpotOutcome::Expired), Ok(0));
    assert_eq!(p.last_slot, 0);
    assert_eq!(p.last_clicks, 0);
    assert_eq!(p.staked, 0);
}

#[test]
fn accumulator_never_decreases() {
    let mut g = game(1000, 7, 3);
    let mut a = PlayerAccount::new();
    let mut b = PlayerAccount::new();
    let mut seen = g.scaled_rewards_per_token;
    let mut check = |g: &GameAccount| {
        assert!(g.scaled_rewards_per_token >= seen);
        seen = g.scaled_rewards_per_token;
    };
    apply_click(&mut g, &mut a, 5, 1, false).unwrap();
    check(&g);
    stake(&mut g, &mut b, 40, 40).unwrap();
    check(&g);
    apply_click(&mut g, &mut b, 9, 2, false).unwrap();
    check(&g);
    claim_rewards(&g, &mut a).unwrap();
    check(&g);
    unstake(&mut g, &mut b, 40).unwrap();
    check(&g);
    apply_click(&mut g, &mut a, 1000, 3, true).unwrap();
    check(&g);
    withdraw(&mut g, 1_000_000);
    check(&g);
    assert!(g.scaled_rewards_per_token > 0);
}

#[test]
fn rate_limit_comes_before_fee_divisor_check() {
    let mut g = game(100, 0, 1);
    let mut p = PlayerAccount::new();
    p.last_slot = 5;
    assert_eq!(apply_click(&mut g, &mut p, 1, 5, false), Err(CookieError::RateLimit));
    assert_eq!(apply_click(&mut g, &mut p, 0, 5, false), Err(CookieError::InvalidArgument));
    assert_eq!(p.last_slot, 5);
}
