use vstd::prelude::*;

use crate::error::CookieError;

verus! {

/// Modulus of a jackpot draw: win chances are out of 10^18.
pub const WIN_MODULUS: u128 = 1_000_000_000_000_000_000;

/// Bytes of the entropy history before its first entry: the entry count.
pub const HISTORY_HEADER: usize = 8;

/// Bytes of one history entry: an 8-byte sequence number, then a 32-byte hash.
pub const HISTORY_ENTRY: usize = 40;

/// Keccak-256 of a byte string, 32 bytes.
pub uninterp spec fn keccak256_of(data: Seq<u8>) -> Seq<u8>;

/// Relies on anchor_lang::solana_program::keccak::hashv, which feeds each part
/// to one Keccak-256 hasher in turn, so that the digest is that of the two
/// parts concatenated.
#[verifier::external_body]
fn keccak_hashv(entry: &[u8], player: &[u8; 32]) -> (r: [u8; 32])
    ensures
        r@ == keccak256_of(entry@ + player@),
{
    anchor_lang::solana_program::keccak::hashv(&[entry, player.as_slice()]).to_bytes()
}

/// Relies on anchor_lang::solana_program::program_memory::sol_memcmp, which
/// returns 0 exactly when the first `n` bytes of both inputs agree (here all 32).
#[verifier::external_body]
fn memcmp_keys(a: &[u8; 32], b: &[u8; 32]) -> (r: i32)
    ensures
        (r == 0) == (a@ == b@),
{
    anchor_lang::solana_program::program_memory::sol_memcmp(a.as_slice(), b.as_slice(), 32)
}

/// Whether two account keys are the same.
pub fn cmp_pubkeys(a: &[u8; 32], b: &[u8; 32]) -> (r: bool)
    ensures
        r == (a@ == b@),
{
    memcmp_keys(a, b) == 0
}

/// 256 to the power `k`.
pub open spec fn pow256(k: nat) -> nat
    decreases k,
{
    if k == 0 {
        1
    } else {
        256 * pow256((k - 1) as nat)
    }
}

/// The unsigned integer whose little-endian bytes are `s`.
pub open spec fn le_value(s: Seq<u8>) -> nat
    decreases s.len(),
{
    if s.len() == 0 {
        0
    } else {
        s[0] as nat + 256 * le_value(s.drop_first())
    }
}

proof fn lemma_pow256_monotone(a: nat, b: nat)
    requires
        a <= b,
    ensures
        pow256(a) <= pow256(b),
    decreases b,
{
    if a < b {
        lemma_pow256_monotone(a, (b - 1) as nat);
    }
}

proof fn lemma_pow256_16()
    ensures
        pow256(16) == u128::MAX + 1,
{
    reveal_with_fuel(pow256, 17);
}

/// Reads the little-endian integer held in `data[start..start + n]`.
pub fn le_value_at(data: &[u8], start: usize, n: usize) -> (r: u128)
    requires
        n <= 16,
        start + n <= data@.len(),
    ensures
        r == le_value(data@.subrange(start as int, start + n)),
        r < pow256(n as nat),
{
    let len = data.len();
    let mut acc: u128 = 0;
    let mut i: usize = n;
    while i > 0
        invariant
            i <= n <= 16,
            start + n <= data@.len(),
            len == data@.len(),
            acc == le_value(data@.subrange(start + i, start + n)),
            acc < pow256((n - i) as nat),
        decreases i,
    {
        let b = data[start + (i - 1)];
        proof {
            let s = data@.subrange(start + i - 1, start + n);
            assert(s.drop_first() =~= data@.subrange(start + i, start + n));
            lemma_pow256_monotone((n - i + 1) as nat, 16);
            lemma_pow256_16();
            let p = pow256((n - i) as nat);
            assert(acc * 256 + b < 256 * p) by (nonlinear_arith)
                requires
                    acc < p,
                    b < 256,
            ;
        }
        acc = acc * 256 + b as u128;
        i = i - 1;
    }
    acc
}

/// The draw of a jackpot hash: its first 16 bytes as a little-endian
/// integer, modulo 10^18.
pub open spec fn roll_of(hash: Seq<u8>) -> int {
    le_value(hash.subrange(0, 16)) as int % (WIN_MODULUS as int)
}

/// The draw that a jackpot hash gives.
pub fn jackpot_roll(hash: &[u8; 32]) -> (r: u128)
    ensures
        r == roll_of(hash@),
        r < WIN_MODULUS,
{
    let seed = le_value_at(hash.as_slice(), 0, 16);
    seed % WIN_MODULUS
}

/// Whether a batch of `clicks` actions wins on the hash: the draw falls under
/// `win_chance * clicks`, taken exactly: a product at or above 10^18 always
/// wins.
pub open spec fn wins(hash: Seq<u8>, win_chance: u128, clicks: u64) -> bool {
    roll_of(hash) < win_chance * clicks
}

/// Whether a batch of `clicks` actions wins on the given jackpot hash.
pub fn is_jackpot_win(hash: &[u8; 32], win_chance: u128, clicks: u64) -> (r: bool)
    ensures
        r == wins(hash@, win_chance, clicks),
{
    let roll = jackpot_roll(hash);
    match win_chance.checked_mul(clicks as u128) {
        Some(threshold) => roll < threshold,
        None => true,
    }
}

/// Where a participant's pending batch stands.
#[derive(Debug, Clone, Copy, PartialEq, Eq, Structural)]
pub enum JackpotOutcome {
    /// No batch is pending.
    Idle,
    /// The batch was submitted at this very sequence point: its entropy is
    /// not known yet, and it stays pending.
    NotYet,
    /// Its entropy has left the bounded history: it can no longer win.
    Expired,
    /// It was drawn and lost.
    Lost,
    /// It was drawn and won.
    Won,
}

/// Byte offset of the hash of history entry `offset`.
pub open spec fn entry_hash_start(offset: int) -> int {
    HISTORY_HEADER + offset * HISTORY_ENTRY + 8
}

/// The outcome of the batch pending since `last_slot`, of `last_clicks`
/// actions, at sequence point `now`, for the participant `player`, with the
/// entropy history `history` (an 8-byte little-endian count, then entries of
/// 40 bytes, the newest first). `InvalidArgument` where the history is too
/// short for what it must hold or `now` lies before `last_slot`.
pub open spec fn outcome_of(
    history: Seq<u8>,
    player: Seq<u8>,
    last_slot: u64,
    last_clicks: u64,
    win_chance: u128,
    now: u64,
) -> Result<JackpotOutcome, CookieError> {
    if last_slot == 0 {
        Ok(JackpotOutcome::Idle)
    } else if now == last_slot {
        Ok(JackpotOutcome::NotYet)
    } else if history.len() < HISTORY_HEADER || now < last_slot {
        Err(CookieError::InvalidArgument)
    } else {
        let offset = now - last_slot - 1;
        let depth = le_value(history.subrange(0, 8));
        if offset >= depth {
            Ok(JackpotOutcome::Expired)
        } else {
            let start = entry_hash_start(offset);
            if start + 32 > history.len() {
                Err(CookieError::InvalidArgument)
            } else {
                let hash = keccak256_of(history.subrange(start, start + 32) + player);
                if wins(hash, win_chance, last_clicks) {
                    Ok(JackpotOutcome::Won)
                } else {
                    Ok(JackpotOutcome::Lost)
                }
            }
        }
    }
}

/// Decides the participant's pending batch against the entropy history.
pub fn jackpot_outcome(
    slot_hashes: &[u8],
    player: &[u8; 32],
    last_slot: u64,
    last_clicks: u64,
    win_chance: u128,
    current_slot: u64,
) -> (r: Result<JackpotOutcome, CookieError>)
    ensures
        r == outcome_of(slot_hashes@, player@, last_slot, last_clicks, win_chance, current_slot),
{
    if last_slot == 0 {
        return Ok(JackpotOutcome::Idle);
    }
    if current_slot == last_slot {
        return Ok(JackpotOutcome::NotYet);
    }
    if slot_hashes.len() < HISTORY_HEADER || current_slot < last_slot {
        return Err(CookieError::InvalidArgument);
    }
    let offset = current_slot - last_slot - 1;
    let depth = le_value_at(slot_hashes, 0, 8);
    if offset as u128 >= depth {
        return Ok(JackpotOutcome::Expired);
    }
    proof {
        reveal_with_fuel(pow256, 9);
    }
    let remaining = ((slot_hashes.len() - HISTORY_HEADER) / HISTORY_ENTRY) as u64;
    if offset >= remaining {
        return Err(CookieError::InvalidArgument);
    }
    let start = HISTORY_HEADER + (offset as usize) * HISTORY_ENTRY + 8;
    let entry = &slot_hashes[start..start + 32];
    let hash = keccak_hashv(entry, player);
    if is_jackpot_win(&hash, win_chance, last_clicks) {
        Ok(JackpotOutcome::Won)
    } else {
        Ok(JackpotOutcome::Lost)
    }
}

/// Whether the participant's pending batch wins now, or why it cannot be
/// decided.
pub open spec fn jackpot_won(
    history: Seq<u8>,
    player: Seq<u8>,
    last_slot: u64,
    last_clicks: u64,
    win_chance: u128,
    now: u64,
) -> Result<bool, CookieError> {
    match outcome_of(history, player, last_slot, last_clicks, win_chance, now) {
        Ok(o) => Ok(o == JackpotOutcome::Won),
        Err(e) => Err(e),
    }
}

/// Whether the participant's pending batch wins now.
pub fn resolve_jackpot(
    slot_hashes: &[u8],
    player: &[u8; 32],
    last_slot: u64,
    last_clicks: u64,
    win_chance: u128,
    current_slot: u64,
) -> (r: Result<bool, CookieError>)
    ensures
        r == jackpot_won(slot_hashes@, player@, last_slot, last_clicks, win_chance, current_slot),
{
    let outcome = jackpot_outcome(slot_hashes, player, last_slot, last_clicks, win_chance, current_slot)?;
    Ok(outcome == JackpotOutcome::Won)
}

/// A batch has no outcome yet at the sequence point it was submitted at,
/// whatever the history holds, and has expired once its entropy lies at or beyond the history's depth.
pub proof fn lemma_resolution_windows(
    history: Seq<u8>,
    player: Seq<u8>,
    last_slot: u64,
    last_clicks: u64,
    win_chance: u128,
    now: u64,
)
    requires
        last_slot != 0,
    ensures
        now == last_slot ==> outcome_of(history, player, last_slot, last_clicks, win_chance, now) == Ok::<
            JackpotOutcome,
            CookieError,
        >(JackpotOutcome::NotYet),
        history.len() >= HISTORY_HEADER && now > last_slot && now - last_slot - 1 >= le_value(history.subrange(0, 8)) ==> outcome_of(
            history,
            player,
            last_slot,
            last_clicks,
            win_chance,
            now,
        ) == Ok::<JackpotOutcome, CookieError>(JackpotOutcome::Expired),
{
}

/// Inside the window the outcome is a function of the history's depth, the
/// entropy entry at the batch's offset and the participant's key alone: two
/// histories that agree there give the same outcome.
pub proof fn lemma_outcome_reproducible(
    h1: Seq<u8>,
    h2: Seq<u8>,
    player: Seq<u8>,
    last_slot: u64,
    last_clicks: u64,
    win_chance: u128,
    now: u64,
)
    requires
        last_slot != 0,
        now > last_slot,
        h1.len() >= HISTORY_HEADER,
        h2.len() >= HISTORY_HEADER,
        h1.subrange(0, 8) == h2.subrange(0, 8),
        entry_hash_start(now - last_slot - 1) + 32 <= h1.len(),
        entry_hash_start(now - last_slot - 1) + 32 <= h2.len(),
        h1.subrange(entry_hash_start(now - last_slot - 1), entry_hash_start(now - last_slot - 1) + 32)
            == h2.subrange(entry_hash_start(now - last_slot - 1), entry_hash_start(now - last_slot - 1) + 32),
    ensures
        outcome_of(h1, player, last_slot, last_clicks, win_chance, now) == outcome_of(
            h2,
            player,
            last_slot,
            last_clicks,
            win_chance,
            now,
        ),
{
}

} // verus!
