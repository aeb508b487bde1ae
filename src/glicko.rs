use crate::pgn::GameResult;
use skillratings::glicko2::{glicko2, Glicko2Config, Glicko2Rating};
use skillratings::Outcomes;
use vstd::prelude::*;

verus! {

#[verifier::external_type_specification]
#[verifier::external_body]
pub struct ExGlicko2Rating(skillratings::glicko2::Glicko2Rating);

/// The bit patterns of a state's rating, deviation and volatility.
pub uninterp spec fn state_bits_of(state: Glicko2Rating) -> (u64, u64, u64);

/// The first game of two newcomers, as skillratings documents it for
/// `glicko2`: the winner's rating rounds to 1662, the loser's to 1338, and
/// both deviations to 290 (bounds given as bit patterns of positive values,
/// which order as the values do).
pub open spec fn first_win(winner: (u64, u64, u64), loser: (u64, u64, u64)) -> bool {
    &&& 0x4099f60000000000u64 <= winner.0 < 0x4099fa0000000000u64
    &&& 0x4094e60000000000u64 <= loser.0 < 0x4094ea0000000000u64
    &&& 0x4072180000000000u64 <= winner.1 < 0x4072280000000000u64
    &&& 0x4072180000000000u64 <= loser.1 < 0x4072280000000000u64
}

/// Relies on skillratings' `glicko2::glicko2` with the crate's default
/// configuration (`Glicko2Config::new`): one game between two players, rated
/// from the first player's side. Its floating-point functions may round
/// differently across platforms, so nothing is claimed of the exact result;
/// only the crate's documented example, a win between two baseline players.
#[verifier::external_body]
pub(crate) fn glicko2_update(white: &Glicko2Rating, black: &Glicko2Rating, result: GameResult) -> (r: (
    Glicko2Rating,
    Glicko2Rating,
))
    ensures
        is_baseline(*white) && is_baseline(*black) && result == GameResult::WhiteWin ==> first_win(
            state_bits_of(r.0),
            state_bits_of(r.1),
        ),
{
    let outcome = match result {
        GameResult::WhiteWin => Outcomes::WIN,
        GameResult::BlackWin => Outcomes::LOSS,
        GameResult::Draw => Outcomes::DRAW,
    };
    glicko2(white, black, &outcome, &Glicko2Config::new())
}

/// Relies on `to_bits` of std's 64-bit float, applied to each field of the state.
#[verifier::external_body]
pub(crate) fn state_bits(state: &Glicko2Rating) -> (r: (u64, u64, u64))
    ensures
        r == state_bits_of(*state),
{
    (state.rating.to_bits(), state.deviation.to_bits(), state.volatility.to_bits())
}

/// The bits of the baseline state: rating 1500, deviation 350, volatility 0.06.
pub open spec fn baseline_bits() -> (u64, u64, u64) {
    (0x4097700000000000u64, 0x4075e00000000000u64, 0x3faeb851eb851eb8u64)
}

pub open spec fn is_baseline(state: Glicko2Rating) -> bool {
    state_bits_of(state) == baseline_bits()
}

/// Relies on skillratings' `Glicko2Rating::new`: rating 1500, deviation 350,
/// volatility 0.06.
#[verifier::external_body]
pub(crate) fn baseline() -> (r: Glicko2Rating)
    ensures
        is_baseline(r),
{
    Glicko2Rating::new()
}

/// Where the bit pattern of a 64-bit float falls in the IEEE 754 total order:
/// a non-negative value keeps its pattern, a negative one is mirrored below zero.
pub open spec fn order_key(bits: u64) -> int {
    if bits < 0x8000_0000_0000_0000u64 {
        bits as int
    } else {
        0x7fff_ffff_ffff_ffff - bits
    }
}

pub fn total_order_key(bits: u64) -> (k: i128)
    ensures
        k == order_key(bits),
{
    if bits < 0x8000_0000_0000_0000u64 {
        bits as i128
    } else {
        0x7fff_ffff_ffff_ffffi128 - bits as i128
    }
}

/// The rating of a state's bits, placed in the total order.
pub open spec fn rating_key(bits: (u64, u64, u64)) -> int {
    order_key(bits.0)
}

/// The deviation of a state's bits, placed in the total order.
pub open spec fn deviation_key(bits: (u64, u64, u64)) -> int {
    order_key(bits.1)
}

} // verus!
