use crate::date::{lemma_key_injective, CalendarDate};
use crate::engine::{applied_all, RatingEngine};
use crate::glicko::state_bits_of;
use crate::order::{all_dates_wf, on_date, sort_by_date, sorted_by_date};
use crate::pgn::OutcomeResult;
use skillratings::glicko2::Glicko2Rating;
use vstd::prelude::*;

verus! {

/// A competitor's state at the end of a day on which they played.
pub struct HistoryPoint {
    pub competitor: String,
    pub date: CalendarDate,
    pub state: Glicko2Rating,
}

/// For each competitor and each day they played, the state after their
/// last game of that day.
pub struct RatingHistory {
    points: Vec<HistoryPoint>,
    table: Ghost<Map<(Seq<char>, CalendarDate), (u64, u64, u64)>>,
}

impl View for RatingHistory {
    type V = Map<(Seq<char>, CalendarDate), (u64, u64, u64)>;

    closed spec fn view(&self) -> Map<(Seq<char>, CalendarDate), (u64, u64, u64)> {
        self.table@
    }
}

pub open spec fn point_key(p: HistoryPoint) -> (Seq<char>, CalendarDate) {
    (p.competitor@, p.date)
}

impl RatingHistory {
    pub closed spec fn wf(&self) -> bool {
        &&& forall|i: int, j: int|
            0 <= i < j < self.points@.len() ==> point_key(self.points@[i]) != point_key(self.points@[j])
        &&& forall|i: int|
            0 <= i < self.points@.len() ==> self.table@.contains_key(#[trigger] point_key(self.points@[i]))
                && self.table@[point_key(self.points@[i])] == state_bits_of(self.points@[i].state) && self.points@[i].date.wf()
        &&& forall|k: (Seq<char>, CalendarDate)|
            #[trigger] self.table@.contains_key(k) ==> exists|i: int|
                0 <= i < self.points@.len() && point_key(self.points@[i]) == k
    }

    pub fn new() -> (r: RatingHistory)
        ensures
            r.wf(),
            r@ == Map::<(Seq<char>, CalendarDate), (u64, u64, u64)>::empty(),
    {
        RatingHistory { points: Vec::new(), table: Ghost(Map::empty()) }
    }

    fn find(&self, competitor: &String, date: CalendarDate) -> (r: Option<usize>)
        requires
            self.wf(),
        ensures
            match r {
                Some(i) => i < self.points@.len() && point_key(self.points@[i as int]) == (competitor@, date),
                None => !self@.contains_key((competitor@, date)),
            },
    {
        let mut i: usize = 0;
        while i < self.points.len()
            invariant
                self.wf(),
                i <= self.points@.len(),
                forall|j: int| 0 <= j < i ==> point_key(self.points@[j]) != (competitor@, date),
            decreases self.points@.len() - i,
        {
            if self.points[i].date == date && self.points[i].competitor == *competitor {
                return Some(i);
            }
            i = i + 1;
        }
        None
    }

    /// Sets the point of a competitor and a day; a later state for the same
    /// day replaces the earlier one.
    pub fn record(&mut self, competitor: &String, date: CalendarDate, state: Glicko2Rating)
        requires
            old(self).wf(),
            date.wf(),
        ensures
            final(self).wf(),
            final(self)@ == old(self)@.insert((competitor@, date), state_bits_of(state)),
    {
        let point = HistoryPoint { competitor: competitor.clone(), date, state };
        let ghost key = (competitor@, date);
        match self.find(competitor, date) {
            Some(i) => {
                self.points.set(i, point);
                self.table = Ghost(self.table@.insert(key, state_bits_of(state)));
                proof {
                    assert forall|k: (Seq<char>, CalendarDate)| #[trigger] self.table@.contains_key(k) implies exists|j: int|
                        0 <= j < self.points@.len() && point_key(self.points@[j]) == k by {
                        if k == key {
                            assert(point_key(self.points@[i as int]) == k);
                        } else {
                            assert(old(self).table@.contains_key(k));
                            let j = choose|j: int| 0 <= j < old(self).points@.len() && point_key(old(self).points@[j]) == k;
                            assert(point_key(self.points@[j]) == k);
                        }
                    }
                }
            },
            None => {
                self.points.push(point);
                self.table = Ghost(self.table@.insert(key, state_bits_of(state)));
                proof {
                    let n = self.points@.len() - 1;
                    assert(point_key(self.points@[n]) == key);
                    assert forall|i: int, j: int|
                        0 <= i < j < self.points@.len() implies point_key(self.points@[i]) != point_key(self.points@[j]) by {
                        if j == n {
                            assert(old(self).table@.contains_key(point_key(old(self).points@[i])));
                        }
                    }
                    assert forall|k: (Seq<char>, CalendarDate)| #[trigger] self.table@.contains_key(k) implies exists|j: int|
                        0 <= j < self.points@.len() && point_key(self.points@[j]) == k by {
                        if k != key {
                            assert(old(self).table@.contains_key(k));
                            let j = choose|j: int| 0 <= j < old(self).points@.len() && point_key(old(self).points@[j]) == k;
                            assert(point_key(self.points@[j]) == k);
                        }
                    }
                }
            },
        }
    }

    /// One competitor's points, by date from the earliest on.
    pub fn series(&self, competitor: &String) -> (r: Vec<(CalendarDate, Glicko2Rating)>)
        requires
            self.wf(),
        ensures
            forall|e: int|
                0 <= e < r@.len() ==> self@.contains_key((competitor@, #[trigger] r@[e].0)) && self@[(
                    competitor@,
                    r@[e].0,
                )] == state_bits_of(r@[e].1) && r@[e].0.wf(),
            forall|d: CalendarDate|
                #[trigger] self@.contains_key((competitor@, d)) ==> exists|e: int| 0 <= e < r@.len() && r@[e].0 == d,
            forall|e: int, f: int| 0 <= e < f < r@.len() ==> r@[e].0.key() < r@[f].0.key(),
    {
        let mut out: Vec<(CalendarDate, Glicko2Rating)> = Vec::new();
        let ghost mut src: Seq<int> = Seq::empty();
        let mut i: usize = 0;
        while i < self.points.len()
            invariant
                self.wf(),
                i <= self.points@.len(),
                src.len() == out@.len(),
                forall|e: int|
                    0 <= e < src.len() ==> 0 <= #[trigger] src[e] < i && self.points@[src[e]].competitor@ == competitor@
                        && self.points@[src[e]].date == out@[e].0 && self.points@[src[e]].state == out@[e].1,
                forall|j: int|
                    0 <= j < i && (#[trigger] self.points@[j]).competitor@ == competitor@ ==> exists|e: int|
                        0 <= e < src.len() && src[e] == j,
                forall|e: int, f: int| 0 <= e < f < out@.len() ==> out@[e].0.key() < out@[f].0.key(),
                forall|e: int| 0 <= e < out@.len() ==> (#[trigger] out@[e]).0.wf(),
            decreases self.points@.len() - i,
        {
            if self.points[i].competitor == *competitor {
                let date = self.points[i].date;
                assert(self.table@.contains_key(point_key(self.points@[i as int])));
                let kx = date.sort_key();
                let mut p: usize = 0;
                while p < out.len() && out[p].0.sort_key() < kx
                    invariant
                        self.wf(),
                        p <= out@.len(),
                        src.len() == out@.len(),
                        forall|e: int| 0 <= e < src.len() ==> 0 <= #[trigger] src[e] < self.points@.len()
                            && self.points@[src[e]].date == out@[e].0,
                        kx == date.key(),
                        forall|e: int| 0 <= e < p ==> out@[e].0.key() < kx,
                        forall|e: int| 0 <= e < out@.len() ==> (#[trigger] out@[e]).0.wf(),
                    decreases out@.len() - p,
                {
                    p = p + 1;
                }
                proof {
                    if p < out@.len() {
                        // the point at p is another of this competitor's days
                        let j = src[p as int];
                        assert(j != i);
                        assert(point_key(self.points@[j]) != point_key(self.points@[i as int]));
                        lemma_key_injective(out@[p as int].0, date);
                        assert(out@[p as int].0.key() > kx);
                    }
                }
                let ghost old_out = out@;
                let ghost old_src = src;
                out.insert(p, (date, self.points[i].state));
                proof {
                    src = src.insert(p as int, i as int);
                    old_src.insert_ensures(p as int, i as int);
                    old_out.insert_ensures(p as int, out@[p as int]);
                    assert(out@ == old_out.insert(p as int, out@[p as int]));
                    assert forall|e: int|
                        0 <= e < src.len() implies 0 <= #[trigger] src[e] < i + 1 && self.points@[src[e]].competitor@
                        == competitor@ && self.points@[src[e]].date == out@[e].0 && self.points@[src[e]].state
                        == out@[e].1 by {
                        if e > p {
                            assert(src[e] == old_src[e - 1]);
                            assert(out@[e] == old_out[e - 1]);
                        }
                    }
                    assert forall|j: int|
                        0 <= j < i + 1 && (#[trigger] self.points@[j]).competitor@ == competitor@ implies exists|e: int|
                        0 <= e < src.len() && src[e] == j by {
                        if j < i {
                            let e = choose|e: int| 0 <= e < old_src.len() && old_src[e] == j;
                            if e < p {
                                assert(src[e] == j);
                            } else {
                                assert(src[e + 1] == j);
                            }
                        } else {
                            assert(src[p as int] == j);
                        }
                    }
                    assert forall|e: int| 0 <= e < out@.len() implies (#[trigger] out@[e]).0.wf() by {
                        if e > p {
                            assert(out@[e] == old_out[e - 1]);
                        }
                    }
                    assert forall|e: int, f: int| 0 <= e < f < out@.len() implies out@[e].0.key() < out@[f].0.key() by {
                        if e > p {
                            assert(out@[e] == old_out[e - 1]);
                        }
                        if f > p {
                            assert(out@[f] == old_out[f - 1]);
                        }
                    }
                }
            }
            i = i + 1;
        }
        proof {
            assert forall|d: CalendarDate| #[trigger] self@.contains_key((competitor@, d)) implies exists|e: int|
                0 <= e < out@.len() && out@[e].0 == d by {
                let j = choose|j: int| 0 <= j < self.points@.len() && point_key(self.points@[j]) == (competitor@, d);
                assert(self.points@[j].competitor@ == competitor@);
                let e = choose|e: int| 0 <= e < src.len() && src[e] == j;
                assert(out@[e].0 == d);
            }
            assert forall|e: int| 0 <= e < out@.len() implies self@.contains_key((competitor@, #[trigger] out@[e].0))
                && self@[(competitor@, out@[e].0)] == state_bits_of(out@[e].1) && out@[e].0.wf() by {
                assert(point_key(self.points@[src[e]]) == (competitor@, out@[e].0));
                assert(self.table@.contains_key(point_key(self.points@[src[e]])));
            }
        }
        out
    }
}

/// The history after the games of `s`, taken in order, the `i`-th update
/// having given the states `u[i]`: after each game both players' new states
/// are recorded under the game's date.
pub open spec fn history_of(s: Seq<OutcomeResult>, u: Seq<((u64, u64, u64), (u64, u64, u64))>) -> Map<(Seq<char>, CalendarDate), (u64, u64, u64)>
    decreases s.len(),
{
    if s.len() == 0 {
        Map::empty()
    } else {
        let m = applied_all(Map::empty(), s, u);
        let g = s.last();
        history_of(s.drop_last(), u.drop_last()).insert((g.white@, g.date), m[g.white@]).insert(
            (g.black@, g.date),
            m[g.black@],
        )
    }
}

/// Runs the whole rating: puts the games in order of date (as
/// [`sort_by_date`] does), rates them in that order from an empty table, and
/// records each player's state after each game. Whatever states the updates
/// gave, the table and the history are those that these states make.
pub fn rate_games(games: &mut Vec<OutcomeResult>) -> (r: (RatingEngine, RatingHistory))
    requires
        all_dates_wf(old(games)@),
    ensures
        all_dates_wf(final(games)@),
        final(games)@.len() == old(games)@.len(),
        sorted_by_date(final(games)@),
        forall|d: CalendarDate| on_date(final(games)@, d) == on_date(old(games)@, d),
        r.0.wf(),
        r.1.wf(),
        exists|u: Seq<((u64, u64, u64), (u64, u64, u64))>|
            u.len() == final(games)@.len() && r.0@ == applied_all(Map::empty(), final(games)@, u) && r.1@
                == history_of(final(games)@, u),
{
    sort_by_date(games);
    let mut engine = RatingEngine::new();
    let mut history = RatingHistory::new();
    let ghost mut u: Seq<((u64, u64, u64), (u64, u64, u64))> = Seq::empty();
    let mut i: usize = 0;
    while i < games.len()
        invariant
            all_dates_wf(games@),
            i <= games@.len(),
            engine.wf(),
            history.wf(),
            u.len() == i,
            engine@ == applied_all(Map::empty(), games@.subrange(0, i as int), u),
            history@ == history_of(games@.subrange(0, i as int), u),
        decreases games@.len() - i,
    {
        let game = &games[i];
        let next = engine.rate(game);
        proof {
            let u2 = u.push((state_bits_of(next.0), state_bits_of(next.1)));
            assert(games@.subrange(0, i + 1).drop_last() =~= games@.subrange(0, i as int));
            assert(games@.subrange(0, i + 1).last() == games@[i as int]);
            assert(u2.drop_last() =~= u);
            assert(games@[i as int].date.wf());
            u = u2;
        }
        let white = engine.rating_of(&game.white);
        let black = engine.rating_of(&game.black);
        history.record(&game.white, game.date, white);
        history.record(&game.black, game.date, black);
        i = i + 1;
    }
    proof {
        assert(games@.subrange(0, games@.len() as int) =~= games@);
    }
    (engine, history)
}

} // verus!
