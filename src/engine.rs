use crate::glicko::{
    baseline, baseline_bits, deviation_key, first_win, glicko2_update, is_baseline, order_key, rating_key,
    state_bits, state_bits_of, total_order_key,
};
use crate::pgn::{GameResult, OutcomeResult};
use skillratings::glicko2::Glicko2Rating;
use vstd::prelude::*;

verus! {

/// The bits of a competitor's state in table `m`: what it holds, else the
/// baseline.
pub open spec fn current(m: Map<Seq<char>, (u64, u64, u64)>, name: Seq<char>) -> (u64, u64, u64) {
    if m.contains_key(name) {
        m[name]
    } else {
        baseline_bits()
    }
}

/// The table after one game whose update gave the players the states
/// `next`: both players' entries are replaced.
pub open spec fn applied(m: Map<Seq<char>, (u64, u64, u64)>, g: OutcomeResult, next: ((u64, u64, u64), (u64, u64, u64))) -> Map<Seq<char>, (u64, u64, u64)> {
    m.insert(g.white@, next.0).insert(g.black@, next.1)
}

/// The table after the games of `s`, taken in order, the `i`-th update
/// having given the states `u[i]`.
pub open spec fn applied_all(m: Map<Seq<char>, (u64, u64, u64)>, s: Seq<OutcomeResult>, u: Seq<((u64, u64, u64), (u64, u64, u64))>) -> Map<
    Seq<char>,
    (u64, u64, u64),
>
    decreases s.len(),
{
    if s.len() == 0 {
        m
    } else {
        applied(applied_all(m, s.drop_last(), u.drop_last()), s.last(), u.last())
    }
}

/// A state whose deviation lies strictly below the threshold, both taken
/// in the IEEE 754 total order (which, on the non-negative values that
/// deviations are, is the usual order).
pub open spec fn qualifies(bits: (u64, u64, u64), threshold: u64) -> bool {
    deviation_key(bits) < order_key(threshold)
}

/// One line of the leaderboard.
pub struct LeaderboardEntry {
    pub competitor: String,
    pub state: Glicko2Rating,
}

/// The current Glicko-2 state of every competitor seen so far.
pub struct RatingEngine {
    names: Vec<String>,
    states: Vec<Glicko2Rating>,
    base: Glicko2Rating,
    table: Ghost<Map<Seq<char>, (u64, u64, u64)>>,
}

impl View for RatingEngine {
    type V = Map<Seq<char>, (u64, u64, u64)>;

    closed spec fn view(&self) -> Map<Seq<char>, (u64, u64, u64)> {
        self.table@
    }
}

impl RatingEngine {
    pub closed spec fn wf(&self) -> bool {
        &&& self.names@.len() == self.states@.len()
        &&& forall|i: int, j: int|
            0 <= i < j < self.names@.len() ==> self.names@[i]@ != self.names@[j]@
        &&& forall|i: int|
            0 <= i < self.names@.len() ==> self.table@.contains_key(#[trigger] self.names@[i]@)
                && self.table@[self.names@[i]@] == state_bits_of(self.states@[i])
        &&& forall|k: Seq<char>|
            #[trigger] self.table@.contains_key(k) ==> exists|i: int|
                0 <= i < self.names@.len() && self.names@[i]@ == k
        &&& is_baseline(self.base)
    }

    pub fn new() -> (r: RatingEngine)
        ensures
            r.wf(),
            r@ == Map::<Seq<char>, (u64, u64, u64)>::empty(),
    {
        RatingEngine {
            names: Vec::new(),
            states: Vec::new(),
            base: baseline(),
            table: Ghost(Map::empty()),
        }
    }

    fn find(&self, name: &String) -> (r: Option<usize>)
        requires
            self.wf(),
        ensures
            match r {
                Some(i) => i < self.names@.len() && self.names@[i as int]@ == name@,
                None => !self@.contains_key(name@),
            },
    {
        let mut i: usize = 0;
        while i < self.names.len()
            invariant
                self.wf(),
                i <= self.names@.len(),
                forall|j: int| 0 <= j < i ==> self.names@[j]@ != name@,
            decreases self.names@.len() - i,
        {
            if self.names[i] == *name {
                return Some(i);
            }
            i = i + 1;
        }
        None
    }

    /// A competitor's current state; the baseline for one never seen. Reading
    /// adds no entry.
    pub fn rating_of(&self, name: &String) -> (r: Glicko2Rating)
        requires
            self.wf(),
        ensures
            state_bits_of(r) == current(self@, name@),
    {
        match self.find(name) {
            Some(i) => self.states[i],
            None => self.base,
        }
    }

    fn store(&mut self, name: &String, state: Glicko2Rating)
        requires
            old(self).wf(),
        ensures
            final(self).wf(),
            final(self)@ == old(self)@.insert(name@, state_bits_of(state)),
    {
        match self.find(name) {
            Some(i) => {
                self.states.set(i, state);
                self.table = Ghost(self.table@.insert(name@, state_bits_of(state)));
                proof {
                    assert forall|k: Seq<char>| #[trigger] self.table@.contains_key(k) implies exists|j: int|
                        0 <= j < self.names@.len() && self.names@[j]@ == k by {
                        if k == name@ {
                            assert(self.names@[i as int]@ == k);
                        } else {
                            assert(old(self).table@.contains_key(k));
                            let j = choose|j: int| 0 <= j < old(self).names@.len() && old(self).names@[j]@ == k;
                            assert(self.names@[j]@ == k);
                        }
                    }
                }
            },
            None => {
                self.names.push(name.clone());
                self.states.push(state);
                self.table = Ghost(self.table@.insert(name@, state_bits_of(state)));
                proof {
                    let n = self.names@.len() - 1;
                    assert(self.names@[n]@ == name@);
                    assert forall|i: int, j: int|
                        0 <= i < j < self.names@.len() implies self.names@[i]@ != self.names@[j]@ by {
                        if j == n {
                            assert(old(self).table@.contains_key(old(self).names@[i]@));
                        }
                    }
                    assert forall|k: Seq<char>| #[trigger] self.table@.contains_key(k) implies exists|j: int|
                        0 <= j < self.names@.len() && self.names@[j]@ == k by {
                        if k != name@ {
                            assert(old(self).table@.contains_key(k));
                            let j = choose|j: int| 0 <= j < old(self).names@.len() && old(self).names@[j]@ == k;
                            assert(self.names@[j]@ == k);
                        }
                    }
                }
            },
        }
    }

    /// The leaderboard: every competitor whose deviation lies below
    /// `threshold` (the bit pattern of a 64-bit float), each once, by rating
    /// from the highest down.
    pub fn leaderboard(&self, threshold: u64) -> (r: Vec<LeaderboardEntry>)
        requires
            self.wf(),
        ensures
            forall|i: int|
                0 <= i < r@.len() ==> self@.contains_key(#[trigger] r@[i].competitor@) && self@[r@[i].competitor@]
                    == state_bits_of(r@[i].state) && qualifies(self@[r@[i].competitor@], threshold),
            forall|k: Seq<char>|
                #[trigger] self@.contains_key(k) && qualifies(self@[k], threshold) ==> exists|i: int|
                    0 <= i < r@.len() && r@[i].competitor@ == k,
            forall|i: int, j: int| 0 <= i < j < r@.len() ==> r@[i].competitor@ != r@[j].competitor@,
            forall|i: int, j: int|
                0 <= i <= j < r@.len() ==> rating_key(state_bits_of(r@[i].state)) >= rating_key(state_bits_of(r@[j].state)),
    {
        let limit = total_order_key(threshold);
        let mut out: Vec<LeaderboardEntry> = Vec::new();
        let ghost mut src: Seq<int> = Seq::empty();
        let mut i: usize = 0;
        while i < self.names.len()
            invariant
                self.wf(),
                i <= self.names@.len(),
                limit == order_key(threshold),
                src.len() == out@.len(),
                forall|e: int|
                    0 <= e < src.len() ==> 0 <= #[trigger] src[e] < i && self.names@[src[e]]@ == out@[e].competitor@
                        && self.states@[src[e]] == out@[e].state && qualifies(state_bits_of(out@[e].state), threshold),
                forall|e: int, f: int| 0 <= e < f < src.len() ==> src[e] != src[f],
                forall|j: int|
                    0 <= j < i && qualifies(state_bits_of(#[trigger] self.states@[j]), threshold) ==> exists|e: int|
                        0 <= e < src.len() && src[e] == j,
                forall|e: int, f: int|
                    0 <= e <= f < out@.len() ==> rating_key(state_bits_of(out@[e].state)) >= rating_key(state_bits_of(out@[f].state)),
            decreases self.names@.len() - i,
        {
            let state = self.states[i];
            let bits = state_bits(&state);
            if total_order_key(bits.1) < limit {
                let kx = total_order_key(bits.0);
                let mut p: usize = 0;
                while p < out.len() && total_order_key(state_bits(&out[p].state).0) >= kx
                    invariant
                        p <= out@.len(),
                        kx == rating_key(state_bits_of(state)),
                        forall|e: int| 0 <= e < p ==> rating_key(state_bits_of(out@[e].state)) >= kx,
                    decreases out@.len() - p,
                {
                    p = p + 1;
                }
                let ghost old_out = out@;
                let ghost old_src = src;
                if p < out.len() {
                    assert(rating_key(state_bits_of(out@[p as int].state)) < kx);
                }
                out.insert(p, LeaderboardEntry { competitor: self.names[i].clone(), state });
                proof {
                    src = src.insert(p as int, i as int);
                    old_src.insert_ensures(p as int, i as int);
                    old_out.insert_ensures(p as int, out@[p as int]);
                    assert(out@ == old_out.insert(p as int, out@[p as int]));
                    assert forall|e: int|
                        0 <= e < src.len() implies 0 <= #[trigger] src[e] < i + 1 && self.names@[src[e]]@
                        == out@[e].competitor@ && self.states@[src[e]] == out@[e].state && qualifies(
                        state_bits_of(out@[e].state),
                        threshold,
                    ) by {
                        if e > p {
                            assert(src[e] == old_src[e - 1]);
                            assert(out@[e] == old_out[e - 1]);
                        }
                    }
                    assert forall|j: int|
                        0 <= j < i + 1 && qualifies(state_bits_of(#[trigger] self.states@[j]), threshold) implies exists|e: int|
                        0 <= e < src.len() && src[e] == j by {
                        if j < i {
                            let e = choose|e: int| 0 <= e < old_src.len() && old_src[e] == j;
                            if e < p {
                                assert(src[e] == j);
                            } else {
                                assert(src[e + 1] == j);
                            }
                        } else {
                            assert(src[p as int] == j);
                        }
                    }
                    assert forall|e: int, f: int|
                        0 <= e <= f < out@.len() implies rating_key(state_bits_of(out@[e].state)) >= rating_key(state_bits_of(out@[f].state)) by {
                        if e > p {
                            assert(out@[e] == old_out[e - 1]);
                        }
                        if f > p {
                            assert(out@[f] == old_out[f - 1]);
                        }
                    }
                }
            }
            i = i + 1;
        }
        proof {
            assert forall|k: Seq<char>|
                #[trigger] self@.contains_key(k) && qualifies(self@[k], threshold) implies exists|e: int|
                0 <= e < out@.len() && out@[e].competitor@ == k by {
                let j = choose|j: int| 0 <= j < self.names@.len() && self.names@[j]@ == k;
                assert(self.table@.contains_key(self.names@[j]@));
                assert(qualifies(state_bits_of(self.states@[j]), threshold));
                let e = choose|e: int| 0 <= e < src.len() && src[e] == j;
                assert(out@[e].competitor@ == k);
            }
            assert forall|i: int| 0 <= i < out@.len() implies self@.contains_key(#[trigger] out@[i].competitor@)
                && self@[out@[i].competitor@] == state_bits_of(out@[i].state) && qualifies(self@[out@[i].competitor@], threshold) by {
                assert(self.table@.contains_key(self.names@[src[i]]@));
            }
            assert forall|e: int, f: int| 0 <= e < f < out@.len() implies out@[e].competitor@ != out@[f].competitor@ by {
                assert(src[e] != src[f]);
                if src[e] < src[f] {
                    assert(self.names@[src[e]]@ != self.names@[src[f]]@);
                } else {
                    assert(self.names@[src[f]]@ != self.names@[src[e]]@);
                }
            }
        }
        out
    }

    /// Writes the outcome of one game's update: both players' entries take
    /// the new states.
    pub fn apply(&mut self, game: &OutcomeResult, white: Glicko2Rating, black: Glicko2Rating)
        requires
            old(self).wf(),
        ensures
            final(self).wf(),
            final(self)@ == applied(old(self)@, *game, (state_bits_of(white), state_bits_of(black))),
    {
        self.store(&game.white, white);
        self.store(&game.black, black);
    }

    /// Rates one game: both players' states, or the baseline where one has
    /// none, go through one Glicko-2 update, and both results are written
    /// back and returned.
    pub fn rate(&mut self, game: &OutcomeResult) -> (r: (Glicko2Rating, Glicko2Rating))
        requires
            old(self).wf(),
        ensures
            final(self).wf(),
            final(self)@ == applied(old(self)@, *game, (state_bits_of(r.0), state_bits_of(r.1))),
            current(old(self)@, game.white@) == baseline_bits() && current(old(self)@, game.black@)
                == baseline_bits() && game.outcome == GameResult::WhiteWin ==> first_win(
                state_bits_of(r.0),
                state_bits_of(r.1),
            ),
    {
        let white = self.rating_of(&game.white);
        let black = self.rating_of(&game.black);
        let next = glicko2_update(&white, &black, game.outcome);
        self.apply(game, next.0, next.1);
        next
    }
}

} // verus!
