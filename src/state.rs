use vstd::prelude::*;

verus! {

/// Rules of a pool, fixed at creation except for the price, which rises by
/// one with every action.
#[derive(Debug, Clone, Copy)]
pub struct GameRules {
    /// Price of the next action.
    pub cost_per_click: u64,
    /// Win chance per action, out of 10^18.
    pub win_chance: u128,
    /// Tokens staked for the participant on a jackpot win.
    pub tokens_on_win: u64,
    /// Tokens staked for the participant on every action.
    pub tokens_on_loss: u64,
    /// Divisor of the treasury share: each charge gives `charge / dev_fee`.
    pub dev_fee: u64,
    pub dev_1: [u8; 32],
    pub dev_2: [u8; 32],
    pub dev_3: [u8; 32],
}

/// The ledger of one pool.
#[derive(Debug, Clone, Copy)]
pub struct GameAccount {
    pub authority: [u8; 32],
    /// Reward accumulator: reward per staked unit, scaled by 2^48.
    pub scaled_rewards_per_token: u128,
    pub total_staked: u64,
    /// Undistributed treasury fees.
    pub dev_fees: u64,
    pub mint: [u8; 32],
    pub total_clicks: u64,
    pub rules: GameRules,
}

/// The ledger of one participant in one pool.
#[derive(Debug, Clone, Copy)]
pub struct PlayerAccount {
    /// Reward debt, scaled by 2^48; subtracted from `R * staked`.
    pub scaled_payout: i128,
    pub staked: u64,
    pub clicks: u64,
    /// Size of the batch still waiting for its jackpot draw (0 if none).
    pub last_clicks: u64,
    /// Sequence point of that batch (0 if none).
    pub last_slot: u64,
}

/// Descriptive data of the pool's token, used once at creation.
#[derive(Debug, Clone)]
pub struct TokenDetails {
    pub name: String,
    pub symbol: String,
    pub uri: String,
    pub initial_supply: u64,
}

impl PlayerAccount {
    /// A participant ledger as it is first created: all zero.
    pub fn new() -> (r: PlayerAccount)
        ensures
            r.scaled_payout == 0,
            r.staked == 0,
            r.clicks == 0,
            r.last_clicks == 0,
            r.last_slot == 0,
    {
        PlayerAccount { scaled_payout: 0, staked: 0, clicks: 0, last_clicks: 0, last_slot: 0 }
    }
}

/// A fresh pool ledger with the given rules: empty accumulator, no stake, no
/// fees.
pub open spec fn initial_game(authority: [u8; 32], mint: [u8; 32], rules: GameRules) -> GameAccount {
    GameAccount {
        authority,
        scaled_rewards_per_token: 0,
        total_staked: 0,
        dev_fees: 0,
        mint,
        total_clicks: 0,
        rules,
    }
}

/// Creates the ledger of a pool.
pub fn initialize(authority: [u8; 32], mint: [u8; 32], rules: GameRules) -> (r: GameAccount)
    ensures
        r == initial_game(authority, mint, rules),
{
    GameAccount {
        authority,
        scaled_rewards_per_token: 0,
        total_staked: 0,
        dev_fees: 0,
        mint,
        total_clicks: 0,
        rules,
    }
}

/// Creates the ledger of a pool whose token is created with it; also gives
/// the supply to be minted to the operator.
pub fn initialize_with_token(
    authority: [u8; 32],
    mint: [u8; 32],
    rules: GameRules,
    token_details: &TokenDetails,
) -> (r: (GameAccount, u64))
    ensures
        r.0 == initial_game(authority, mint, rules),
        r.1 == token_details.initial_supply,
{
    (initialize(authority, mint, rules), token_details.initial_supply)
}

} // verus!
