use crate::engine::{applied, current};
use crate::glicko::baseline_bits;
use crate::pgn::{after_outcome, yields_game, OutcomeResult, RecordView};
use vstd::prelude::*;

verus! {

/// A competitor who has played no game reads as rating 1500, deviation 350
/// and volatility 0.06, exactly, in every table.
pub proof fn lemma_unseen_competitor_has_baseline(m: Map<Seq<char>, (u64, u64, u64)>, name: Seq<char>)
    requires
        !m.contains_key(name),
    ensures
        current(m, name) == baseline_bits(),
        current(m, name) == (0x4097700000000000u64, 0x4075e00000000000u64, 0x3faeb851eb851eb8u64),
{
}

/// Two games with no competitor in common can be rated in either order: the
/// update of each sees the same states whichever comes first, and given the
/// same outcomes of the two updates the table comes out the same.
pub proof fn lemma_disjoint_games_commute(
    m: Map<Seq<char>, (u64, u64, u64)>,
    g1: OutcomeResult,
    u1: ((u64, u64, u64), (u64, u64, u64)),
    g2: OutcomeResult,
    u2: ((u64, u64, u64), (u64, u64, u64)),
)
    requires
        g1.white@ != g2.white@,
        g1.white@ != g2.black@,
        g1.black@ != g2.white@,
        g1.black@ != g2.black@,
    ensures
        current(applied(m, g1, u1), g2.white@) == current(m, g2.white@),
        current(applied(m, g1, u1), g2.black@) == current(m, g2.black@),
        current(applied(m, g2, u2), g1.white@) == current(m, g1.white@),
        current(applied(m, g2, u2), g1.black@) == current(m, g1.black@),
        applied(applied(m, g1, u1), g2, u2) == applied(applied(m, g2, u2), g1, u1),
{
    assert(applied(applied(m, g1, u1), g2, u2) =~= applied(applied(m, g2, u2), g1, u1));
}

/// A record whose result token is `*` gives no game, whatever its headers
/// held.
pub proof fn lemma_unknown_result_yields_no_game(v: RecordView)
    ensures
        !yields_game(after_outcome(v, None)),
{
}

} // verus!
