//! Selection of candidate devices by name, and the per-class lowest index.

use vstd::prelude::*;
use crate::bytes::matches_at;
use crate::subsystem::SubSystem;

verus! {

pub open spec fn is_digit(b: u8) -> bool {
    48 <= b <= 57
}

pub open spec fn all_digits(s: Seq<u8>) -> bool {
    forall|i: int| 0 <= i < s.len() ==> is_digit(#[trigger] s[i])
}

/// The number that the decimal digits `s` write, most significant first.
pub open spec fn decimal_value(s: Seq<u8>) -> nat
    decreases s.len(),
{
    if s.len() == 0 {
        0
    } else {
        decimal_value(s.drop_last()) * 10 + (s.last() - 48) as nat
    }
}

/// The index that a device-name suffix gives: a non-empty run of decimal
/// digits whose value fits in `usize`.
pub open spec fn parsed_id(s: Seq<u8>) -> Option<usize> {
    if s.len() > 0 && all_digits(s) && decimal_value(s) <= usize::MAX {
        Some(decimal_value(s) as usize)
    } else {
        None
    }
}

/// The index of a candidate device named `name`: the name starts with
/// `prefix`, the rest parses, and the index is not zero.
pub open spec fn candidate(name: Seq<u8>, prefix: Seq<u8>) -> Option<usize> {
    if prefix.len() <= name.len() && name.subrange(0, prefix.len() as int) == prefix {
        match parsed_id(name.subrange(prefix.len() as int, name.len() as int)) {
            Some(id) => if id != 0 {
                Some(id)
            } else {
                None
            },
            None => None,
        }
    } else {
        None
    }
}

/// Among the digits, a longer prefix never writes a smaller number.
proof fn lemma_decimal_monotone(s: Seq<u8>, j: int, k: int)
    requires
        all_digits(s),
        0 <= j <= k <= s.len(),
    ensures
        decimal_value(s.subrange(0, j)) <= decimal_value(s.subrange(0, k)),
    decreases k - j,
{
    if j < k {
        lemma_decimal_monotone(s, j, k - 1);
        assert(s.subrange(0, k).drop_last() =~= s.subrange(0, k - 1));
    }
}

/// Parses a device-name suffix as a decimal index. `None` where the suffix is
/// empty, holds a byte that is no decimal digit, or writes a number too large
/// for `usize`.
pub fn id_from_bytes(bytes: &[u8]) -> (r: Option<usize>)
    ensures
        r == parsed_id(bytes@),
{
    let n = bytes.len();
    if n == 0 {
        return None;
    }
    let mut id: usize = 0;
    let mut overflow = false;
    let mut i: usize = 0;
    while i < n
        invariant
            n == bytes@.len(),
            i <= n,
            all_digits(bytes@.subrange(0, i as int)),
            !overflow ==> id == decimal_value(bytes@.subrange(0, i as int)),
            overflow ==> decimal_value(bytes@.subrange(0, i as int)) > usize::MAX,
        decreases n - i,
    {
        let b = bytes[i];
        if b < 48 || b > 57 {
            assert(!all_digits(bytes@));
            return None;
        }
        let ghost prev = bytes@.subrange(0, i as int);
        let ghost next = bytes@.subrange(0, i + 1);
        assert(next.drop_last() =~= prev);
        assert(all_digits(next));
        if !overflow {
            let d = (b - 48) as usize;
            match id.checked_mul(10) {
                Some(t) => match t.checked_add(d) {
                    Some(v) => {
                        id = v;
                    },
                    None => {
                        overflow = true;
                    },
                },
                None => {
                    overflow = true;
                },
            }
        } else {
            assert(decimal_value(next) >= decimal_value(prev)) by {
                lemma_decimal_monotone(next, i as int, i + 1);
                assert(next.subrange(0, i as int) =~= prev);
                assert(next.subrange(0, i + 1) =~= next);
            }
        }
        i += 1;
    }
    assert(bytes@.subrange(0, n as int) =~= bytes@);
    if overflow {
        None
    } else {
        Some(id)
    }
}

/// The index of the device named `name` where it is a candidate for a scan
/// with `prefix`: the name starts with `prefix` and the rest is a non-zero
/// decimal index. `None` for every other name.
pub fn candidate_id(name: &[u8], prefix: &[u8]) -> (r: Option<usize>)
    ensures
        r == candidate(name@, prefix@),
{
    let n = name.len();
    let p = prefix.len();
    if p > n {
        return None;
    }
    if !matches_at(name, prefix, 0) {
        return None;
    }
    let suffix = &name[p..n];
    assert(suffix@ =~= name@.subrange(p as int, n as int));
    match id_from_bytes(suffix) {
        Some(id) => if id != 0 {
            Some(id)
        } else {
            None
        },
        None => None,
    }
}

/// What one candidate gave: its index, and its class where it has one.
pub type Observation = (usize, Option<SubSystem>);

/// The lowest index seen so far of each class; 0 where none was seen.
#[derive(Clone, Copy, Debug, PartialEq, Eq, Structural)]
pub struct ScanSummary {
    pub official_coreelec: usize,
    pub official_emuelec: usize,
    pub hybrid_coreelec: usize,
    pub hybrid_emuelec: usize,
}

/// `cur` lowered to `id` where `id` is a valid index below it, or where
/// nothing was seen yet.
pub open spec fn lowered(cur: usize, id: usize) -> usize {
    if id != 0 && (cur == 0 || id < cur) {
        id
    } else {
        cur
    }
}

/// The summary after the observations of `obs`, in that order.
pub open spec fn summary_after(obs: Seq<Observation>) -> ScanSummary
    decreases obs.len(),
{
    if obs.len() == 0 {
        ScanSummary::empty()
    } else {
        summary_after(obs.drop_last()).step(obs.last().0, obs.last().1)
    }
}

/// Some observation of `obs` gives class `c` at the non-zero index `id`.
pub open spec fn seen_at(obs: Seq<Observation>, c: SubSystem, id: usize) -> bool {
    id != 0 && obs.contains((id, Some(c)))
}

impl ScanSummary {
    pub open spec fn empty() -> ScanSummary {
        ScanSummary { official_coreelec: 0, official_emuelec: 0, hybrid_coreelec: 0, hybrid_emuelec: 0 }
    }

    /// The lowest index recorded for class `c`; 0 where none was.
    pub open spec fn index(self, c: SubSystem) -> usize {
        match c {
            SubSystem::OfficialCoreELEC => self.official_coreelec,
            SubSystem::OfficialEmuELEC => self.official_emuelec,
            SubSystem::HybridCoreELEC => self.hybrid_coreelec,
            SubSystem::HybridEmuELEC => self.hybrid_emuelec,
        }
    }

    /// The summary after one more candidate, of index `id` and class `class`.
    pub open spec fn step(self, id: usize, class: Option<SubSystem>) -> ScanSummary {
        match class {
            Some(SubSystem::OfficialCoreELEC) => ScanSummary {
                official_coreelec: lowered(self.official_coreelec, id),
                ..self
            },
            Some(SubSystem::OfficialEmuELEC) => ScanSummary {
                official_emuelec: lowered(self.official_emuelec, id),
                ..self
            },
            Some(SubSystem::HybridCoreELEC) => ScanSummary {
                hybrid_coreelec: lowered(self.hybrid_coreelec, id),
                ..self
            },
            Some(SubSystem::HybridEmuELEC) => ScanSummary {
                hybrid_emuelec: lowered(self.hybrid_emuelec, id),
                ..self
            },
            None => self,
        }
    }

    /// A summary in which no class has been seen.
    pub fn new() -> (r: ScanSummary)
        ensures
            r == ScanSummary::empty(),
    {
        ScanSummary { official_coreelec: 0, official_emuelec: 0, hybrid_coreelec: 0, hybrid_emuelec: 0 }
    }

    /// Takes one candidate into account: its index lowers the entry of its
    /// class. A candidate with no class, or with index 0, changes nothing.
    pub fn record(&mut self, id: usize, class: Option<SubSystem>)
        ensures
            *final(self) == old(self).step(id, class),
    {
        match class {
            Some(SubSystem::OfficialCoreELEC) => {
                self.official_coreelec = lower(self.official_coreelec, id);
            },
            Some(SubSystem::OfficialEmuELEC) => {
                self.official_emuelec = lower(self.official_emuelec, id);
            },
            Some(SubSystem::HybridCoreELEC) => {
                self.hybrid_coreelec = lower(self.hybrid_coreelec, id);
            },
            Some(SubSystem::HybridEmuELEC) => {
                self.hybrid_emuelec = lower(self.hybrid_emuelec, id);
            },
            None => {},
        }
    }

    /// The lowest index recorded for class `c`; 0 where none was.
    pub fn index_of(&self, c: SubSystem) -> (r: usize)
        ensures
            r == self.index(c),
    {
        match c {
            SubSystem::OfficialCoreELEC => self.official_coreelec,
            SubSystem::OfficialEmuELEC => self.official_emuelec,
            SubSystem::HybridCoreELEC => self.hybrid_coreelec,
            SubSystem::HybridEmuELEC => self.hybrid_emuelec,
        }
    }
}

fn lower(cur: usize, id: usize) -> (r: usize)
    ensures
        r == lowered(cur, id),
{
    if id != 0 && (cur == 0 || id < cur) {
        id
    } else {
        cur
    }
}

/// The summary of a whole list of candidates.
pub fn summarize(obs: &Vec<Observation>) -> (r: ScanSummary)
    ensures
        r == summary_after(obs@),
{
    let mut r = ScanSummary::new();
    let mut i: usize = 0;
    while i < obs.len()
        invariant
            i <= obs@.len(),
            r == summary_after(obs@.subrange(0, i as int)),
        decreases obs@.len() - i,
    {
        let (id, class) = obs[i];
        r.record(id, class);
        assert(obs@.subrange(0, i + 1).drop_last() =~= obs@.subrange(0, i as int));
        i += 1;
    }
    assert(obs@.subrange(0, obs@.len() as int) =~= obs@);
    r
}

/// One more candidate touches only the entry of its own class.
proof fn lemma_step_index(s: ScanSummary, id: usize, class: Option<SubSystem>, c: SubSystem)
    ensures
        s.step(id, class).index(c) == (if class == Some(c) {
            lowered(s.index(c), id)
        } else {
            s.index(c)
        }),
{
}

/// The entry of each class is 0 exactly where no candidate of that class was
/// seen, and else the lowest index among those candidates.
pub proof fn lemma_summary_is_minimum(obs: Seq<Observation>, c: SubSystem)
    ensures
        summary_after(obs).index(c) == 0 <==> (forall|id: usize| !seen_at(obs, c, id)),
        summary_after(obs).index(c) != 0 ==> seen_at(obs, c, summary_after(obs).index(c)),
        forall|id: usize| seen_at(obs, c, id) ==> summary_after(obs).index(c) <= id,
    decreases obs.len(),
{
    if obs.len() > 0 {
        let init = obs.drop_last();
        let last = obs.last();
        lemma_summary_is_minimum(init, c);
        lemma_step_index(summary_after(init), last.0, last.1, c);
        let cur = summary_after(init).index(c);
        let now = summary_after(obs).index(c);
        assert forall|x: Observation| #[trigger] obs.contains(x) <==> (init.contains(x) || x == last) by {
            if obs.contains(x) {
                let k = choose|k: int| 0 <= k < obs.len() && obs[k] == x;
                if k < init.len() {
                    assert(init[k] == x);
                }
            }
            if init.contains(x) {
                let k = choose|k: int| 0 <= k < init.len() && init[k] == x;
                assert(obs[k] == x);
            }
            if x == last {
                assert(obs[obs.len() - 1] == x);
            }
        }
        assert forall|id: usize| seen_at(obs, c, id) <==> (seen_at(init, c, id) || (id != 0 && last == (id, Some(c)))) by {
            assert(obs.contains((id, Some(c))) <==> (init.contains((id, Some(c))) || (id, Some(c)) == last));
        }
        if last.1 == Some(c) && last.0 != 0 && (cur == 0 || last.0 < cur) {
            assert(now == last.0);
            assert(seen_at(obs, c, last.0));
        } else {
            assert(now == cur);
            if last.1 == Some(c) && last.0 != 0 {
                assert(cur != 0 && cur <= last.0);
            }
        }
    }
}

/// The summary does not depend on the order of the candidates: two lists
/// that hold the same observations give the same summary.
pub proof fn lemma_summary_order_independent(a: Seq<Observation>, b: Seq<Observation>)
    requires
        forall|x: Observation| a.contains(x) <==> b.contains(x),
    ensures
        summary_after(a) == summary_after(b),
{
    assert forall|c: SubSystem| summary_after(a).index(c) == summary_after(b).index(c) by {
        lemma_summary_is_minimum(a, c);
        lemma_summary_is_minimum(b, c);
        let ma = summary_after(a).index(c);
        let mb = summary_after(b).index(c);
        if ma != 0 && mb != 0 {
            assert(seen_at(b, c, ma));
            assert(seen_at(a, c, mb));
        } else if ma != 0 {
            assert(seen_at(b, c, ma));
        } else if mb != 0 {
            assert(seen_at(a, c, mb));
        }
    }
    assert(summary_after(a).index(SubSystem::OfficialCoreELEC) == summary_after(b).index(SubSystem::OfficialCoreELEC));
    assert(summary_after(a).index(SubSystem::OfficialEmuELEC) == summary_after(b).index(SubSystem::OfficialEmuELEC));
    assert(summary_after(a).index(SubSystem::HybridCoreELEC) == summary_after(b).index(SubSystem::HybridCoreELEC));
    assert(summary_after(a).index(SubSystem::HybridEmuELEC) == summary_after(b).index(SubSystem::HybridEmuELEC));
}

} // verus!
