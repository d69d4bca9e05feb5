//! Latency distribution of the loads of one test.
//!
//! The loads sampled at the target instruction are grouped by the access
//! that they record. For each group the smallest and the greatest value of
//! both retirement counters are kept, with the number of samples.

use vstd::prelude::*;
use crate::access::{ascending, lemma_ascending_no_duplicates, AccessSet, MemoryAccess};
use crate::analysis::lemma_filter_step;
use crate::sample::Sample;

verus! {

/// The smallest and the greatest of some values; both are 0 where there is
/// no value.
#[derive(Clone, Copy, Debug, PartialEq, Eq, Structural)]
pub struct MinMax {
    pub min: u64,
    pub max: u64,
}

/// The latencies of the loads that record one access.
#[derive(Clone, Copy, Debug, PartialEq, Eq, Structural)]
pub struct LoadLatency {
    /// The access that the loads record.
    pub access: MemoryAccess,
    /// The number of samples.
    pub samples: usize,
    /// Cycles from tagging to retirement.
    pub tag2ret: MinMax,
    /// Cycles from completion to retirement.
    pub comp2ret: MinMax,
}

/// The smallest item of `v`, and 0 where `v` is empty.
pub open spec fn least(v: Seq<int>) -> int
    decreases v.len(),
{
    if v.len() == 0 {
        0
    } else if v.len() == 1 {
        v[0]
    } else {
        let m = least(v.drop_last());
        if v.last() < m {
            v.last()
        } else {
            m
        }
    }
}

/// The greatest item of `v`, and 0 where `v` is empty.
pub open spec fn greatest(v: Seq<int>) -> int
    decreases v.len(),
{
    if v.len() == 0 {
        0
    } else if v.len() == 1 {
        v[0]
    } else {
        let m = greatest(v.drop_last());
        if v.last() > m {
            v.last()
        } else {
            m
        }
    }
}

/// The smallest item of a sequence that is not empty is one of its items,
/// and no item is smaller; likewise the greatest.
pub proof fn lemma_least_greatest(v: Seq<int>)
    requires
        v.len() > 0,
    ensures
        forall|i: int| 0 <= i < v.len() ==> least(v) <= #[trigger] v[i] && v[i] <= greatest(v),
        exists|i: int| 0 <= i < v.len() && v[i] == least(v),
        exists|i: int| 0 <= i < v.len() && v[i] == greatest(v),
    decreases v.len(),
{
    if v.len() == 1 {
        assert(v[0] == least(v));
        assert(v[0] == greatest(v));
    } else {
        let d = v.drop_last();
        lemma_least_greatest(d);
        let i = choose|i: int| 0 <= i < d.len() && d[i] == least(d);
        let j = choose|j: int| 0 <= j < d.len() && d[j] == greatest(d);
        assert(v[i] == d[i] && v[j] == d[j]);
        assert(v[v.len() - 1] == v.last());
        assert forall|k: int| 0 <= k < v.len() implies least(v) <= #[trigger] v[k] && v[k]
            <= greatest(v) by {
            if k < d.len() {
                assert(d[k] == v[k]);
            }
        }
    }
}

/// What one more value does to the smallest and the greatest.
pub proof fn lemma_least_greatest_push(v: Seq<int>, x: int)
    ensures
        least(v.push(x)) == if v.len() == 0 || x < least(v) {
            x
        } else {
            least(v)
        },
        greatest(v.push(x)) == if v.len() == 0 || x > greatest(v) {
            x
        } else {
            greatest(v)
        },
{
    assert(v.push(x).drop_last() =~= v);
    assert(v.push(x).last() == x);
}

/// Whether `s` is a load of the instruction at `tgt_rip` that records the
/// access `acc`.
pub open spec fn is_load_of(s: Sample, tgt_rip: u64, acc: MemoryAccess) -> bool {
    s.rip == tgt_rip && s.data3.ld_op() && MemoryAccess::of_sample(s) == Some(acc)
}

/// The loads of the instruction at `tgt_rip` that record the access `acc`.
pub open spec fn loads_of(samples: Seq<Sample>, tgt_rip: u64, acc: MemoryAccess) -> Seq<Sample> {
    samples.filter(|s: Sample| is_load_of(s, tgt_rip, acc))
}

/// Cycles from tagging to retirement of each sample.
pub open spec fn tag2ret_of(samples: Seq<Sample>) -> Seq<int> {
    samples.map_values(|s: Sample| s.data.spec_tag_to_ret_ctr() as int)
}

/// Cycles from completion to retirement of each sample.
pub open spec fn comp2ret_of(samples: Seq<Sample>) -> Seq<int> {
    samples.map_values(|s: Sample| s.data.spec_comp_to_ret_ctr() as int)
}

/// Whether `e` is the summary of `loads`.
pub open spec fn summarizes(e: LoadLatency, loads: Seq<Sample>) -> bool {
    &&& e.samples == loads.len()
    &&& e.tag2ret.min == least(tag2ret_of(loads))
    &&& e.tag2ret.max == greatest(tag2ret_of(loads))
    &&& e.comp2ret.min == least(comp2ret_of(loads))
    &&& e.comp2ret.max == greatest(comp2ret_of(loads))
}

/// The accesses of the entries, in their order.
pub open spec fn accesses_of(dist: Seq<LoadLatency>) -> Seq<MemoryAccess> {
    dist.map_values(|e: LoadLatency| e.access)
}

/// The summary of `loads` after one more load `x`, given the summary `e`
/// of `loads`.
fn add_load(e: &LoadLatency, x: &Sample, Ghost(loads): Ghost<Seq<Sample>>) -> (r: LoadLatency)
    requires
        summarizes(*e, loads),
        loads.len() < usize::MAX,
    ensures
        r.access == e.access,
        summarizes(r, loads.push(*x)),
{
    let t = x.data.tag_to_ret_ctr();
    let c = x.data.comp_to_ret_ctr();
    proof {
        lemma_least_greatest_push(tag2ret_of(loads), t as int);
        lemma_least_greatest_push(comp2ret_of(loads), c as int);
        assert(tag2ret_of(loads.push(*x)) =~= tag2ret_of(loads).push(t as int));
        assert(comp2ret_of(loads.push(*x)) =~= comp2ret_of(loads).push(c as int));
    }
    let first = e.samples == 0;
    LoadLatency {
        access: e.access,
        samples: e.samples + 1,
        tag2ret: MinMax {
            min: if first || t < e.tag2ret.min {
                t
            } else {
                e.tag2ret.min
            },
            max: if first || t > e.tag2ret.max {
                t
            } else {
                e.tag2ret.max
            },
        },
        comp2ret: MinMax {
            min: if first || c < e.comp2ret.min {
                c
            } else {
                e.comp2ret.min
            },
            max: if first || c > e.comp2ret.max {
                c
            } else {
                e.comp2ret.max
            },
        },
    }
}

/// The latency distribution of the loads of the instruction at `tgt_rip`:
/// one entry for each access that a load records, in ascending order of
/// the accesses.
pub fn load_lat_dist(samples: &[Sample], tgt_rip: u64) -> (r: Vec<LoadLatency>)
    ensures
        ascending(accesses_of(r@)),
        forall|acc: MemoryAccess|
            accesses_of(r@).to_set().contains(acc) <==> loads_of(samples@, tgt_rip, acc).len() > 0,
        forall|k: int|
            0 <= k < r@.len() ==> summarizes(
                #[trigger] r@[k],
                loads_of(samples@, tgt_rip, r@[k].access),
            ),
{
    let mut keys = AccessSet::new();
    let mut dist: Vec<LoadLatency> = Vec::new();
    let mut i: usize = 0;
    proof {
        reveal(Seq::filter);
        assert forall|acc: MemoryAccess| loads_of(samples@.take(0), tgt_rip, acc).len() == 0 by {
            assert(samples@.take(0) =~= Seq::<Sample>::empty());
        }
        assert(accesses_of(dist@) =~= keys.elements());
    }
    while i < samples.len()
        invariant
            i <= samples@.len(),
            accesses_of(dist@) == keys.elements(),
            ascending(keys.elements()),
            forall|acc: MemoryAccess|
                #[trigger] keys@.contains(acc) <==> loads_of(
                    samples@.take(i as int),
                    tgt_rip,
                    acc,
                ).len() > 0,
            forall|k: int|
                0 <= k < dist@.len() ==> summarizes(
                    #[trigger] dist@[k],
                    loads_of(samples@.take(i as int), tgt_rip, dist@[k].access),
                ),
        decreases samples@.len() - i,
    {
        let x = &samples[i];
        let ghost s0 = samples@.take(i as int);
        let ghost s1 = samples@.take(i + 1);
        let ghost old_dist = dist@;
        let ghost old_keys = keys@;
        let mut hit: Option<MemoryAccess> = None;
        if x.rip == tgt_rip && x.data3.ld_op() {
            hit = MemoryAccess::from_sample(x);
        }
        proof {
            assert forall|acc: MemoryAccess|
                #![trigger loads_of(s1, tgt_rip, acc)]
                loads_of(s1, tgt_rip, acc) == if hit == Some(acc) {
                    loads_of(s0, tgt_rip, acc).push(*x)
                } else {
                    loads_of(s0, tgt_rip, acc)
                } by {
                lemma_filter_step(samples@, |s: Sample| is_load_of(s, tgt_rip, acc), i as int);
            }
            assert forall|acc: MemoryAccess|
                #![trigger loads_of(s0, tgt_rip, acc)]
                loads_of(s0, tgt_rip, acc).len() <= i by {
                s0.lemma_filter_len(|s: Sample| is_load_of(s, tgt_rip, acc));
            }
        }
        if let Some(acc) = hit {
            let (pos, fresh) = keys.insert(acc);
            proof {
                assert(accesses_of(old_dist).len() == old_dist.len());
            }
            if fresh {
                let empty = LoadLatency {
                    access: acc,
                    samples: 0,
                    tag2ret: MinMax { min: 0, max: 0 },
                    comp2ret: MinMax { min: 0, max: 0 },
                };
                proof {
                    assert(loads_of(s0, tgt_rip, acc).len() == 0);
                    assert(loads_of(s0, tgt_rip, acc) =~= Seq::<Sample>::empty());
                    assert(tag2ret_of(Seq::<Sample>::empty()) =~= Seq::<int>::empty());
                    assert(comp2ret_of(Seq::<Sample>::empty()) =~= Seq::<int>::empty());
                }
                let entry = add_load(&empty, x, Ghost(loads_of(s0, tgt_rip, acc)));
                dist.insert(pos, entry);
                proof {
                    assert(accesses_of(dist@) =~= accesses_of(old_dist).insert(pos as int, acc));
                    assert forall|k: int| 0 <= k < dist@.len() implies summarizes(
                        #[trigger] dist@[k],
                        loads_of(s1, tgt_rip, dist@[k].access),
                    ) by {
                        if k < pos {
                            assert(dist@[k] == old_dist[k]);
                            assert(accesses_of(old_dist)[k] == old_dist[k].access);
                            assert(old_keys.contains(old_dist[k].access));
                        } else if k > pos {
                            assert(dist@[k] == old_dist[k - 1]);
                            assert(accesses_of(old_dist)[k - 1] == old_dist[k - 1].access);
                            assert(old_keys.contains(old_dist[k - 1].access));
                        }
                    }
                }
            } else {
                proof {
                    assert(accesses_of(dist@)[pos as int] == dist@[pos as int].access);
                }
                let entry = add_load(&dist[pos], x, Ghost(loads_of(s0, tgt_rip, acc)));
                dist.set(pos, entry);
                proof {
                    assert(accesses_of(dist@) =~= accesses_of(old_dist));
                    assert forall|k: int| 0 <= k < dist@.len() implies summarizes(
                        #[trigger] dist@[k],
                        loads_of(s1, tgt_rip, dist@[k].access),
                    ) by {
                        if k != pos {
                            assert(dist@[k] == old_dist[k]);
                            assert(accesses_of(old_dist)[k] == old_dist[k].access);
                            assert(accesses_of(old_dist)[pos as int] == acc);
                            lemma_ascending_no_duplicates(keys.elements());
                        }
                    }
                }
            }
        }
        i += 1;
    }
    proof {
        assert(samples@.take(samples@.len() as int) =~= samples@);
        assert(accesses_of(dist@).to_set() == keys@);
    }
    dist
}

} // verus!
