use crate::date::CalendarDate;
use crate::pgn::OutcomeResult;
use vstd::prelude::*;

verus! {

/// Filtering a sequence with one more element, placed at `p`, keeps the
/// parts on either side of it.
pub proof fn lemma_filter_insert<A>(r: Seq<A>, p: int, x: A, pred: spec_fn(A) -> bool)
    requires
        0 <= p <= r.len(),
    ensures
        r.insert(p, x).filter(pred) == r.subrange(0, p).filter(pred) + seq![x].filter(pred) + r.subrange(
            p,
            r.len() as int,
        ).filter(pred),
        r.filter(pred) == r.subrange(0, p).filter(pred) + r.subrange(p, r.len() as int).filter(pred),
{
    let a = r.subrange(0, p);
    let b = r.subrange(p, r.len() as int);
    assert(r.insert(p, x) =~= a + seq![x] + b);
    assert(r =~= a + b);
    Seq::filter_distributes_over_add(a + seq![x], b, pred);
    Seq::filter_distributes_over_add(a, seq![x], pred);
    Seq::filter_distributes_over_add(a, b, pred);
}

pub proof fn lemma_filter_single<A>(x: A, pred: spec_fn(A) -> bool)
    ensures
        seq![x].filter(pred) == (if pred(x) { seq![x] } else { Seq::<A>::empty() }),
{
    reveal_with_fuel(Seq::filter, 2);
    assert(seq![x].drop_last() =~= Seq::<A>::empty());
    if pred(x) {
        assert(Seq::<A>::empty().push(x) =~= seq![x]);
    }
}

pub proof fn lemma_filter_none<A>(s: Seq<A>, pred: spec_fn(A) -> bool)
    requires
        forall|i: int| 0 <= i < s.len() ==> !pred(s[i]),
    ensures
        s.filter(pred) == Seq::<A>::empty(),
{
    assert(s.all(|x: A| !pred(x)));
    s.lemma_all_neg_filter_empty(pred);
    assert(s.filter(pred) =~= Seq::<A>::empty());
}

/// Holds of the games played on `d`.
pub open spec fn dated(d: CalendarDate) -> spec_fn(OutcomeResult) -> bool {
    |g: OutcomeResult| g.date == d
}

/// The games of `s` played on `d`, in their order in `s`.
pub open spec fn on_date(s: Seq<OutcomeResult>, d: CalendarDate) -> Seq<OutcomeResult> {
    s.filter(dated(d))
}

pub open spec fn sorted_by_date(s: Seq<OutcomeResult>) -> bool {
    forall|i: int, j: int| 0 <= i <= j < s.len() ==> s[i].date.key() <= s[j].date.key()
}

pub open spec fn all_dates_wf(s: Seq<OutcomeResult>) -> bool {
    forall|i: int| 0 <= i < s.len() ==> (#[trigger] s[i]).date.wf()
}

/// Puts the games in order of date. Games of one date keep the order they
/// had: for every date, the games of that date form the same sequence
/// before and after.
pub fn sort_by_date(games: &mut Vec<OutcomeResult>)
    requires
        all_dates_wf(old(games)@),
    ensures
        all_dates_wf(final(games)@),
        final(games)@.len() == old(games)@.len(),
        sorted_by_date(final(games)@),
        forall|d: CalendarDate| on_date(final(games)@, d) == on_date(old(games)@, d),
{
    let mut rest: Vec<OutcomeResult> = Vec::new();
    core::mem::swap(games, &mut rest);
    let ghost s = rest@;
    let mut out: Vec<OutcomeResult> = Vec::new();
    proof {
        assert forall|d: CalendarDate| on_date(out@, d) == on_date(s.subrange(s.len() as int, s.len() as int), d) by {
            lemma_filter_none(out@, dated(d));
            lemma_filter_none(s.subrange(s.len() as int, s.len() as int), dated(d));
        }
    }
    while rest.len() > 0
        invariant
            rest@.len() <= s.len(),
            rest@ == s.subrange(0, rest@.len() as int),
            all_dates_wf(s),
            all_dates_wf(out@),
            sorted_by_date(out@),
            out@.len() + rest@.len() == s.len(),
            forall|d: CalendarDate| on_date(out@, d) == on_date(s.subrange(rest@.len() as int, s.len() as int), d),
        decreases rest@.len(),
    {
        let ghost n = rest@.len() as int;
        let x = match rest.pop() {
            Some(x) => x,
            None => { return; },
        };
        assert(x == s[n - 1]);
        let kx = x.date.sort_key();
        let mut p: usize = 0;
        while p < out.len() && out[p].date.sort_key() < kx
            invariant
                p <= out@.len(),
                all_dates_wf(out@),
                x.date.wf(),
                kx == x.date.key(),
                forall|i: int| 0 <= i < p ==> out@[i].date.key() < kx,
            decreases out@.len() - p,
        {
            p = p + 1;
        }
        proof {
            let o = out@;
            let tail = s.subrange(n, s.len() as int);
            assert(s.subrange(n - 1, s.len() as int) =~= seq![x] + tail);
            assert forall|d: CalendarDate| on_date(o.insert(p as int, x), d) == on_date(s.subrange(n - 1, s.len() as int), d) by {
                let pr = dated(d);
                lemma_filter_insert(o, p as int, x, pr);
                lemma_filter_single(x, pr);
                Seq::filter_distributes_over_add(seq![x], tail, pr);
                assert(on_date(o, d) == on_date(tail, d));
                if x.date == d {
                    lemma_filter_none(o.subrange(0, p as int), pr);
                    let b = o.subrange(p as int, o.len() as int).filter(pr);
                    assert(Seq::<OutcomeResult>::empty() + seq![x] + b =~= seq![x] + b);
                    assert(Seq::<OutcomeResult>::empty() + b =~= b);
                } else {
                    assert(o.subrange(0, p as int).filter(pr) + Seq::<OutcomeResult>::empty() =~= o.subrange(0, p as int).filter(pr));
                    assert(Seq::<OutcomeResult>::empty() + tail.filter(pr) =~= tail.filter(pr));
                }
            }
            if p < o.len() {
                assert(o[p as int].date.key() >= kx);
            }
        }
        out.insert(p, x);
    }
    proof {
        assert(s.subrange(0, s.len() as int) =~= s);
    }
    *games = out;
}

} // verus!
