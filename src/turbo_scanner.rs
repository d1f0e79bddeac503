//! Filters opportunity candidates by profit and drops the routes already seen.

use vstd::prelude::*;
use ahash::AHashSet;
use crate::types::Opportunity;
use crate::deduplicator::key_views;
use crate::containers::{key_set_of, key_set_new, key_set_contains, key_set_insert, key_set_len, key_set_clear};

verus! {

/// Above this many remembered fingerprints, lightweight mode forgets them all.
pub const LIGHTWEIGHT_SEEN_LIMIT: usize = 1000;

/// The parts joined with `-` between each two.
pub open spec fn joined(parts: Seq<Seq<char>>) -> Seq<char>
    decreases parts.len(),
{
    if parts.len() == 0 {
        Seq::empty()
    } else if parts.len() == 1 {
        parts[0]
    } else {
        joined(parts.drop_last()) + seq!['-'] + parts.last()
    }
}

/// The fingerprint of an opportunity: its joined path, `|`, its joined dexes.
pub open spec fn fingerprint(o: Opportunity) -> Seq<char> {
    joined(key_views(o.path@)) + seq!['|'] + joined(key_views(o.dexes@))
}

/// One candidate against the remembered fingerprints: the new set and what is emitted.
pub open spec fn scan_step(seen: Set<Seq<char>>, o: Opportunity, min_profit_bps: i32, lightweight: bool) -> (Set<Seq<char>>, Seq<Opportunity>) {
    if o.profit_bps < min_profit_bps || seen.contains(fingerprint(o)) {
        (seen, Seq::empty())
    } else {
        let kept = if lightweight && seen.len() > LIGHTWEIGHT_SEEN_LIMIT { Set::empty() } else { seen };
        (kept.insert(fingerprint(o)), seq![o])
    }
}

/// The candidates `os` taken in order: the final set and everything emitted.
pub open spec fn scan_run(seen: Set<Seq<char>>, os: Seq<Opportunity>, min_profit_bps: i32, lightweight: bool) -> (Set<Seq<char>>, Seq<Opportunity>)
    decreases os.len(),
{
    if os.len() == 0 {
        (seen, Seq::empty())
    } else {
        let (s, out) = scan_run(seen, os.drop_last(), min_profit_bps, lightweight);
        let (s2, o) = scan_step(s, os.last(), min_profit_bps, lightweight);
        (s2, out + o)
    }
}

/// Joins the parts with `-`.
fn join_dashed(parts: &Vec<String>) -> (r: String)
    ensures
        r@ == joined(key_views(parts@)),
{
    let ghost ps = key_views(parts@);
    let mut out = String::new();
    let mut i: usize = 0;
    while i < parts.len()
        invariant
            i <= parts.len(),
            ps == key_views(parts@),
            out@ == joined(ps.take(i as int)),
        decreases parts.len() - i,
    {
        proof {
            assert(ps.take(i + 1).drop_last() == ps.take(i as int));
            assert(ps.take(i + 1).last() == parts[i as int]@);
            assert(ps.take(0) == Seq::<Seq<char>>::empty());
        }
        let ghost prev = out@;
        if i > 0 {
            out.append("-");
            proof {
                reveal_strlit("-");
                assert("-"@ =~= seq!['-']);
            }
        } else {
            assert(Seq::<char>::empty() + parts[0]@ == parts[0]@);
        }
        out.append(parts[i].as_str());
        proof {
            if i > 0 {
                assert(out@ == prev + seq!['-'] + parts[i as int]@);
            }
        }
        i = i + 1;
    }
    proof {
        assert(ps.take(parts.len() as int) == ps);
    }
    out
}

/// Keeps the fingerprints of the opportunities it has let through.
pub struct TurboScanner {
    seen_opportunities: AHashSet<String>,
    min_profit_bps: i32,
    scan_count: u64,
}

impl TurboScanner {
    /// The fingerprints remembered.
    pub closed spec fn seen(&self) -> Set<Seq<char>> {
        key_set_of(self.seen_opportunities)
    }

    pub closed spec fn min_profit(&self) -> i32 {
        self.min_profit_bps
    }

    pub closed spec fn scans(&self) -> u64 {
        self.scan_count
    }

    pub open spec fn wf(&self) -> bool {
        self.seen().finite()
    }

    /// What one `filter_opportunities(os)` does, from `before` to `after`, returning `out`.
    pub open spec fn filtered(before: Self, os: Seq<Opportunity>, lightweight: bool, after: Self, out: Seq<Opportunity>) -> bool {
        &&& after.wf()
        &&& after.scans() == before.scans() + 1
        &&& after.min_profit() == before.min_profit()
        &&& (after.seen(), out) == scan_run(before.seen(), os, before.min_profit(), lightweight)
    }

    /// A scanner that lets through opportunities of at least `min_profit_bps`.
    pub fn new(min_profit_bps: i32) -> (r: Self)
        ensures
            r.wf(),
            r.seen().is_empty(),
            r.min_profit() == min_profit_bps,
            r.scans() == 0,
    {
        TurboScanner { seen_opportunities: key_set_new(), min_profit_bps, scan_count: 0 }
    }

    /// Counts one scan, then takes the candidates in order as `scan_step`
    /// says; every opportunity returned is at least as profitable as the minimum.
    pub fn filter_opportunities(&mut self, opportunities: Vec<Opportunity>, lightweight: bool) -> (r: Vec<Opportunity>)
        requires
            old(self).wf(),
            old(self).scans() < u64::MAX,
        ensures
            Self::filtered(*old(self), opportunities@, lightweight, *final(self), r@),
            forall|i: int| 0 <= i < r.len() ==> #[trigger] r[i].profit_bps >= final(self).min_profit(),
    {
        self.scan_count = self.scan_count + 1;
        let ghost start = self.seen();
        let ghost min = self.min_profit_bps;
        let mut filtered: Vec<Opportunity> = Vec::new();
        for opp in it: opportunities
            invariant
                start == old(self).seen(),
                min == self.min_profit_bps,
                self.min_profit_bps == old(self).min_profit_bps,
                self.scan_count == old(self).scan_count + 1,
                self.wf(),
                it.seq() == opportunities@,
                (self.seen(), filtered@) == scan_run(start, it.seq().take(it.index() as int), min, lightweight),
        {
            let ghost idx = it.index() as int;
            proof {
                let os = it.seq().take(idx + 1);
                assert(os.drop_last() == it.seq().take(idx));
                assert(os.last() == opp);
            }
            if opp.profit_bps < self.min_profit_bps {
                assert(filtered@ + Seq::<Opportunity>::empty() == filtered@);
            } else {
                let key = self.generate_opportunity_key(&opp);
                if key_set_contains(&self.seen_opportunities, &key) {
                    assert(filtered@ + Seq::<Opportunity>::empty() == filtered@);
                } else {
                    if lightweight && key_set_len(&self.seen_opportunities) > LIGHTWEIGHT_SEEN_LIMIT {
                        key_set_clear(&mut self.seen_opportunities);
                    }
                    key_set_insert(&mut self.seen_opportunities, key);
                    filtered.push(opp);
                }
            }
        }
        proof {
            assert(opportunities@.take(opportunities@.len() as int) == opportunities@);
            lemma_scan_meets_minimum(start, opportunities@, min, lightweight);
            let run = scan_run(start, opportunities@, min, lightweight).1;
            assert(filtered@ == run);
            assert forall|i: int| 0 <= i < filtered.len() implies #[trigger] filtered[i].profit_bps >= min by {
                assert(filtered[i] == run[i]);
            }
        }
        filtered
    }

    /// The fingerprint of `opp`.
    fn generate_opportunity_key(&self, opp: &Opportunity) -> (r: String)
        ensures
            r@ == fingerprint(*opp),
    {
        proof {
            reveal_strlit("|");
        }
        let mut key = join_dashed(&opp.path);
        key.append("|");
        let dexes = join_dashed(&opp.dexes);
        key.append(dexes.as_str());
        key
    }

    /// How many times `filter_opportunities` ran since the last reset.
    pub fn get_scan_count(&self) -> (r: u64)
        ensures
            r == self.scans(),
    {
        self.scan_count
    }

    /// Forgets every fingerprint and zeroes the scan count.
    pub fn reset(&mut self)
        ensures
            final(self).wf(),
            final(self).seen().is_empty(),
            final(self).scans() == 0,
            final(self).min_profit() == old(self).min_profit(),
    {
        key_set_clear(&mut self.seen_opportunities);
        self.scan_count = 0;
    }

    /// The number of fingerprints remembered, saturated at `u32::MAX`.
    pub fn get_cache_size(&self) -> (r: u32)
        requires
            self.wf(),
        ensures
            r as int == if self.seen().len() <= u32::MAX { self.seen().len() as int } else { u32::MAX as int },
    {
        let len = key_set_len(&self.seen_opportunities);
        if len <= u32::MAX as usize { len as u32 } else { u32::MAX }
    }
}

/// Whatever the remembered fingerprints, nothing below the minimum profit
/// is ever emitted.
pub proof fn lemma_scan_meets_minimum(seen: Set<Seq<char>>, os: Seq<Opportunity>, min_profit_bps: i32, lightweight: bool)
    ensures
        forall|i: int| 0 <= i < scan_run(seen, os, min_profit_bps, lightweight).1.len()
            ==> #[trigger] scan_run(seen, os, min_profit_bps, lightweight).1[i].profit_bps >= min_profit_bps,
    decreases os.len(),
{
    if os.len() > 0 {
        lemma_scan_meets_minimum(seen, os.drop_last(), min_profit_bps, lightweight);
        let (s, out) = scan_run(seen, os.drop_last(), min_profit_bps, lightweight);
        let (s2, o) = scan_step(s, os.last(), min_profit_bps, lightweight);
        assert(forall|i: int| 0 <= i < o.len() ==> #[trigger] o[i].profit_bps >= min_profit_bps);
        let all = out + o;
        assert forall|i: int| 0 <= i < all.len() implies #[trigger] all[i].profit_bps >= min_profit_bps by {
            if i >= out.len() {
                assert(all[i] == o[i - out.len()]);
            } else {
                assert(all[i] == out[i]);
            }
        }
        assert(scan_run(seen, os, min_profit_bps, lightweight).1 == all);
    }
}

/// An opportunity as profitable as the minimum, whose route is not
/// remembered, is let through by one `filter_opportunities` call and dropped
/// by the next, in either mode.
pub proof fn lemma_second_scan_drops_repeat(
    s0: TurboScanner,
    s1: TurboScanner,
    s2: TurboScanner,
    o: Opportunity,
    mode1: bool,
    mode2: bool,
    out1: Seq<Opportunity>,
    out2: Seq<Opportunity>,
)
    requires
        o.profit_bps >= s0.min_profit(),
        !s0.seen().contains(fingerprint(o)),
        TurboScanner::filtered(s0, seq![o], mode1, s1, out1),
        TurboScanner::filtered(s1, seq![o], mode2, s2, out2),
    ensures
        out1 == seq![o],
        out2 == Seq::<Opportunity>::empty(),
{
    let e = Seq::<Opportunity>::empty();
    assert(seq![o].drop_last() == e);
    assert(seq![o].last() == o);
    assert(scan_run(s0.seen(), e, s0.min_profit(), mode1) == (s0.seen(), e));
    let (a1, o1) = scan_step(s0.seen(), o, s0.min_profit(), mode1);
    assert(e + o1 == o1);
    assert(scan_run(s0.seen(), seq![o], s0.min_profit(), mode1) == (a1, o1));
    assert(o1 == seq![o]);
    assert(a1.contains(fingerprint(o)));
    assert(scan_run(s1.seen(), e, s1.min_profit(), mode2) == (s1.seen(), e));
    let (a2, o2) = scan_step(s1.seen(), o, s1.min_profit(), mode2);
    assert(o2 == e);
    assert(e + e == e);
}

} // verus!
