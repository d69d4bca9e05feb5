//! Cross-tabulation of memory accesses over test keys.
//!
//! Each test key (the number of an MSR, a CPUID leaf) has the set of
//! accesses that were observed under it. An access is *common* when it was
//! observed under every key, and *unique* to a key when it was observed
//! under that key and no other. Whatever lies between is neither.

use vstd::prelude::*;
use crate::access::{ascending, AccessSet, MemoryAccess};
use crate::analysis::{
    get_uniq_accesses, lemma_filter_step, target_rip, uniq_accesses,
};
use crate::codegen::TestParameters;
use crate::sample::Sample;

verus! {

/// The accesses observed under one test key.
#[derive(Debug)]
pub struct KeyAccesses {
    /// The test key.
    pub key: u32,
    /// What was observed under it.
    pub accesses: AccessSet,
}

/// The results of a particular test.
#[derive(Debug)]
pub struct TestResult {
    /// Information about the code emitted for this test.
    pub params: TestParameters,
    /// The resulting samples from this test.
    pub result: Vec<Sample>,
}

impl TestResult {
    /// The program counter of the target instruction of the test, for
    /// code loaded at `base`.
    pub open spec fn target_rip(&self, base: u64) -> int {
        base + self.params.tgt_instr_off
    }

    /// Whether the target instruction of the test has an address, for code
    /// loaded at `base`: the address space holds its program counter.
    pub open spec fn locates(&self, base: u64) -> bool {
        self.target_rip(base) <= u64::MAX
    }

    /// Whether the target instruction of the test has an address, for code
    /// loaded at `base`.
    pub fn can_locate(&self, base: u64) -> (r: bool)
        ensures
            r == self.locates(base),
    {
        target_rip(base, self.params.tgt_instr_off).is_some()
    }

    /// The accesses observed at the target instruction of the test, for
    /// code loaded at `base`.
    pub fn accesses(&self, base: u64) -> (r: AccessSet)
        requires
            self.locates(base),
        ensures
            r@ == uniq_accesses(self.result@, self.target_rip(base) as u64),
    {
        let rip = base + self.params.tgt_instr_off as u64;
        get_uniq_accesses(self.result.as_slice(), rip)
    }
}

/// Whether the keys of the tests are in ascending order, each once: the
/// order in which a map from keys to tests hands them out.
pub open spec fn test_keys_ascending(tests: Seq<(u32, TestResult)>) -> bool {
    forall|i: int, j: int| 0 <= i < j < tests.len() ==> (#[trigger] tests[i]).0 < (
    #[trigger] tests[j]).0
}

/// Whether the keys are in ascending order, each once.
pub open spec fn keys_ascending(per_key: Seq<KeyAccesses>) -> bool {
    forall|i: int, j: int|
        0 <= i < j < per_key.len() ==> (#[trigger] per_key[i]).key < (#[trigger] per_key[j]).key
}

/// Whether the keys of the tests are in ascending order, each once.
pub fn check_test_keys_ascending(tests: &Vec<(u32, TestResult)>) -> (r: bool)
    ensures
        r == test_keys_ascending(tests@),
{
    let mut i: usize = 1;
    while i < tests.len()
        invariant
            1 <= i,
            forall|a: int, b: int|
                0 <= a < b < i && b < tests@.len() ==> (#[trigger] tests@[a]).0 < (
                #[trigger] tests@[b]).0,
        decreases tests@.len() - i,
    {
        if tests[i - 1].0 >= tests[i].0 {
            assert(!(tests@[i - 1].0 < tests@[i as int].0));
            return false;
        }
        proof {
            assert forall|a: int, b: int| 0 <= a < b < i + 1 && b < tests@.len() implies (
            #[trigger] tests@[a]).0 < (#[trigger] tests@[b]).0 by {
                if b == i && a < i - 1 {
                    assert(tests@[a].0 < tests@[i - 1].0);
                }
            }
        }
        i += 1;
    }
    true
}

/// Whether the keys are in ascending order, each once.
pub fn check_keys_ascending(per_key: &Vec<KeyAccesses>) -> (r: bool)
    ensures
        r == keys_ascending(per_key@),
{
    let mut i: usize = 1;
    while i < per_key.len()
        invariant
            1 <= i,
            forall|a: int, b: int|
                0 <= a < b < i && b < per_key@.len() ==> (#[trigger] per_key@[a]).key < (
                #[trigger] per_key@[b]).key,
        decreases per_key@.len() - i,
    {
        if per_key[i - 1].key >= per_key[i].key {
            assert(!(per_key@[i - 1].key < per_key@[i as int].key));
            return false;
        }
        proof {
            assert forall|a: int, b: int| 0 <= a < b < i + 1 && b < per_key@.len() implies (
            #[trigger] per_key@[a]).key < (#[trigger] per_key@[b]).key by {
                if b == i && a < i - 1 {
                    assert(per_key@[a].key < per_key@[i - 1].key);
                }
            }
        }
        i += 1;
    }
    true
}

/// The accesses observed under each key of `tests` at the target
/// instruction of its test, for code loaded at `base`, in the order of
/// `tests`, which is the ascending order of their keys.
pub fn per_key_accesses(tests: &Vec<(u32, TestResult)>, base: u64) -> (r: Vec<KeyAccesses>)
    requires
        test_keys_ascending(tests@),
        forall|i: int| 0 <= i < tests@.len() ==> (#[trigger] tests@[i]).1.locates(base),
    ensures
        r@.len() == tests@.len(),
        keys_ascending(r@),
        forall|i: int|
            0 <= i < r@.len() ==> (#[trigger] r@[i]).key == tests@[i].0 && r@[i].accesses@
                == uniq_accesses(tests@[i].1.result@, tests@[i].1.target_rip(base) as u64),
{
    let mut per_key: Vec<KeyAccesses> = Vec::new();
    let mut i: usize = 0;
    while i < tests.len()
        invariant
            i <= tests@.len(),
            per_key@.len() == i,
            forall|j: int| 0 <= j < tests@.len() ==> (#[trigger] tests@[j]).1.locates(base),
            forall|j: int|
                0 <= j < i ==> (#[trigger] per_key@[j]).key == tests@[j].0 && per_key@[j].accesses@
                    == uniq_accesses(tests@[j].1.result@, tests@[j].1.target_rip(base) as u64),
        decreases tests@.len() - i,
    {
        let entry = &tests[i];
        let accesses = entry.1.accesses(base);
        per_key.push(KeyAccesses { key: entry.0, accesses });
        i += 1;
    }
    proof {
        assert forall|a: int, b: int| 0 <= a < b < per_key@.len() implies (
        #[trigger] per_key@[a]).key < (#[trigger] per_key@[b]).key by {
            assert(tests@[a].0 < tests@[b].0);
        }
    }
    per_key
}

/// Whether `acc` was observed under the `i`-th key.
pub open spec fn observed(per_key: Seq<KeyAccesses>, i: int, acc: MemoryAccess) -> bool {
    per_key[i].accesses@.contains(acc)
}

/// Whether `acc` was observed under any key.
pub open spec fn observed_somewhere(per_key: Seq<KeyAccesses>, acc: MemoryAccess) -> bool {
    exists|i: int| 0 <= i < per_key.len() && observed(per_key, i, acc)
}

/// Whether `acc` was observed under each of the keys.
pub open spec fn observed_everywhere(per_key: Seq<KeyAccesses>, acc: MemoryAccess) -> bool {
    forall|i: int| 0 <= i < per_key.len() ==> observed(per_key, i, acc)
}

/// Whether `acc` was observed under a key other than the `i`-th.
pub open spec fn observed_elsewhere(per_key: Seq<KeyAccesses>, i: int, acc: MemoryAccess) -> bool {
    exists|j: int| 0 <= j < per_key.len() && j != i && observed(per_key, j, acc)
}

/// Whether `acc` is common: there is a key, and `acc` was observed under
/// every key.
pub open spec fn is_common(per_key: Seq<KeyAccesses>, acc: MemoryAccess) -> bool {
    per_key.len() > 0 && observed_everywhere(per_key, acc)
}

/// Whether `acc` is unique to the `i`-th key: observed under it and under
/// no other.
pub open spec fn is_unique_to(per_key: Seq<KeyAccesses>, i: int, acc: MemoryAccess) -> bool {
    0 <= i < per_key.len() && observed(per_key, i, acc) && !observed_elsewhere(per_key, i, acc)
}

/// The common accesses.
pub open spec fn common_set(per_key: Seq<KeyAccesses>) -> Set<MemoryAccess> {
    Set::new(|acc: MemoryAccess| is_common(per_key, acc))
}

/// The accesses unique to the `i`-th key.
pub open spec fn unique_set(per_key: Seq<KeyAccesses>, i: int) -> Set<MemoryAccess> {
    Set::new(|acc: MemoryAccess| is_unique_to(per_key, i, acc))
}

/// Each key with the accesses unique to it, in the order of the keys.
pub open spec fn unique_by_key(per_key: Seq<KeyAccesses>) -> Seq<(u32, Set<MemoryAccess>)> {
    Seq::new(per_key.len(), |i: int| (per_key[i].key, unique_set(per_key, i)))
}

/// Whether an entry of [`unique_by_key`] has any access.
pub open spec fn has_unique(entry: (u32, Set<MemoryAccess>)) -> bool {
    entry.1 != Set::<MemoryAccess>::empty()
}

/// The keys that have unique accesses, each with those accesses, in the
/// order of the keys.
pub open spec fn unique_report(per_key: Seq<KeyAccesses>) -> Seq<(u32, Set<MemoryAccess>)> {
    unique_by_key(per_key).filter(|entry: (u32, Set<MemoryAccess>)| has_unique(entry))
}

/// The key and the set of accesses of each entry.
pub open spec fn entries(per_key: Seq<KeyAccesses>) -> Seq<(u32, Set<MemoryAccess>)> {
    Seq::new(per_key.len(), |i: int| (per_key[i].key, per_key[i].accesses@))
}

/// With a single key, every access observed under it is common and is
/// unique to that key.
pub proof fn lemma_single_key_degenerate(per_key: Seq<KeyAccesses>, acc: MemoryAccess)
    requires
        per_key.len() == 1,
        observed(per_key, 0, acc),
    ensures
        is_common(per_key, acc),
        is_unique_to(per_key, 0, acc),
        common_set(per_key) == per_key[0].accesses@,
        unique_set(per_key, 0) == per_key[0].accesses@,
{
    assert forall|a: MemoryAccess| observed(per_key, 0, a) implies is_common(per_key, a)
        && is_unique_to(per_key, 0, a) by {
        assert(observed_everywhere(per_key, a));
        assert(!observed_elsewhere(per_key, 0, a));
    }
    assert forall|a: MemoryAccess| is_common(per_key, a) implies observed(per_key, 0, a) by {}
    assert(common_set(per_key) =~= per_key[0].accesses@);
    assert(unique_set(per_key, 0) =~= per_key[0].accesses@);
}

/// With more than two keys, an access observed under exactly two of them
/// is neither common nor unique to either of the two (nor to any key).
pub proof fn lemma_shared_by_two(per_key: Seq<KeyAccesses>, a: int, c: int, acc: MemoryAccess)
    requires
        per_key.len() > 2,
        0 <= a < per_key.len(),
        0 <= c < per_key.len(),
        a != c,
        forall|i: int| 0 <= i < per_key.len() ==> (observed(per_key, i, acc) <==> (i == a || i == c)),
    ensures
        !is_common(per_key, acc),
        !is_unique_to(per_key, a, acc),
        !is_unique_to(per_key, c, acc),
        forall|i: int| !is_unique_to(per_key, i, acc),
        !common_set(per_key).contains(acc),
        !unique_set(per_key, a).contains(acc),
        !unique_set(per_key, c).contains(acc),
{
    // there is a third key, under which the access was not observed
    let third = if a != 0 && c != 0 {
        0int
    } else if a != 1 && c != 1 {
        1int
    } else {
        2int
    };
    assert(!observed(per_key, third, acc));
    assert(observed(per_key, c, acc));
    assert(observed(per_key, a, acc));
    assert forall|i: int| !is_unique_to(per_key, i, acc) by {
        if i == a {
            assert(observed_elsewhere(per_key, a, acc));
        } else if i == c {
            assert(observed_elsewhere(per_key, c, acc));
        }
    }
}

/// An access is never common and unique at once where there are two keys
/// or more; a common access was observed, and so was a unique one.
pub proof fn lemma_common_unique_exclusive(per_key: Seq<KeyAccesses>, i: int, acc: MemoryAccess)
    requires
        per_key.len() >= 2,
    ensures
        !(is_common(per_key, acc) && is_unique_to(per_key, i, acc)),
        is_common(per_key, acc) ==> observed_somewhere(per_key, acc),
        is_unique_to(per_key, i, acc) ==> observed_somewhere(per_key, acc),
{
    if is_common(per_key, acc) {
        assert(observed(per_key, 0, acc));
        if is_unique_to(per_key, i, acc) {
            let j = if i == 0 {
                1int
            } else {
                0int
            };
            assert(observed(per_key, j, acc));
        }
    }
}

/// Whether `acc` was observed under each of the keys.
pub fn observed_by_all(per_key: &Vec<KeyAccesses>, acc: &MemoryAccess) -> (r: bool)
    ensures
        r == observed_everywhere(per_key@, *acc),
{
    let mut i: usize = 0;
    while i < per_key.len()
        invariant
            i <= per_key@.len(),
            forall|j: int| 0 <= j < i ==> observed(per_key@, j, *acc),
        decreases per_key@.len() - i,
    {
        if !per_key[i].accesses.contains(acc) {
            assert(!observed(per_key@, i as int, *acc));
            return false;
        }
        i += 1;
    }
    true
}

/// Whether `acc` was observed under a key other than the `i`-th.
pub fn observed_by_other(per_key: &Vec<KeyAccesses>, i: usize, acc: &MemoryAccess) -> (r: bool)
    ensures
        r == observed_elsewhere(per_key@, i as int, *acc),
{
    let mut j: usize = 0;
    while j < per_key.len()
        invariant
            j <= per_key@.len(),
            forall|k: int| 0 <= k < j && k != i ==> !observed(per_key@, k, *acc),
        decreases per_key@.len() - j,
    {
        if j != i && per_key[j].accesses.contains(acc) {
            assert(observed(per_key@, j as int, *acc));
            return true;
        }
        j += 1;
    }
    false
}

/// The accesses observed under every key.
pub fn common_accesses(per_key: &Vec<KeyAccesses>) -> (r: AccessSet)
    ensures
        r@ == common_set(per_key@),
{
    let mut common = AccessSet::new();
    if per_key.len() == 0 {
        assert(common@ =~= common_set(per_key@));
        return common;
    }
    let first = &per_key[0].accesses;
    let n = first.len();
    let mut k: usize = 0;
    while k < n
        invariant
            k <= n,
            n == first.elements().len(),
            per_key@.len() > 0,
            *first == per_key@[0].accesses,
            forall|a: MemoryAccess|
                common@.contains(a) <==> is_common(per_key@, a) && exists|m: int|
                    0 <= m < k && first.elements()[m] == a,
        decreases n - k,
    {
        let acc = first.get(k);
        let ghost before = common@;
        if observed_by_all(per_key, &acc) {
            common.insert(acc);
        }
        proof {
            assert forall|a: MemoryAccess|
                common@.contains(a) <==> is_common(per_key@, a) && exists|m: int|
                    0 <= m < k + 1 && first.elements()[m] == a by {
                if before.contains(a) {
                    let m = choose|m: int| 0 <= m < k && first.elements()[m] == a;
                    assert(0 <= m < k + 1 && first.elements()[m] == a);
                }
                if is_common(per_key@, a) && exists|m: int|
                    0 <= m < k + 1 && first.elements()[m] == a {
                    let m = choose|m: int| 0 <= m < k + 1 && first.elements()[m] == a;
                    if m < k {
                        assert(before.contains(a));
                    }
                }
            }
        }
        k += 1;
    }
    proof {
        assert forall|a: MemoryAccess| common@.contains(a) <==> is_common(per_key@, a) by {
            if is_common(per_key@, a) {
                assert(observed(per_key@, 0, a));
                let m = choose|m: int| 0 <= m < first.elements().len() && first.elements()[m] == a;
                assert(0 <= m < k && first.elements()[m] == a);
            }
        }
        assert(common@ =~= common_set(per_key@));
    }
    common
}

/// The accesses observed under the `i`-th key and no other.
pub fn unique_accesses(per_key: &Vec<KeyAccesses>, i: usize) -> (r: AccessSet)
    requires
        i < per_key@.len(),
    ensures
        r@ == unique_set(per_key@, i as int),
{
    let mut uniq = AccessSet::new();
    let own = &per_key[i].accesses;
    let n = own.len();
    let mut k: usize = 0;
    while k < n
        invariant
            k <= n,
            n == own.elements().len(),
            i < per_key@.len(),
            *own == per_key@[i as int].accesses,
            forall|a: MemoryAccess|
                uniq@.contains(a) <==> is_unique_to(per_key@, i as int, a) && exists|m: int|
                    0 <= m < k && own.elements()[m] == a,
        decreases n - k,
    {
        let acc = own.get(k);
        let ghost before = uniq@;
        if !observed_by_other(per_key, i, &acc) {
            uniq.insert(acc);
        }
        proof {
            assert forall|a: MemoryAccess|
                uniq@.contains(a) <==> is_unique_to(per_key@, i as int, a) && exists|m: int|
                    0 <= m < k + 1 && own.elements()[m] == a by {
                if before.contains(a) {
                    let m = choose|m: int| 0 <= m < k && own.elements()[m] == a;
                    assert(0 <= m < k + 1 && own.elements()[m] == a);
                }
                if is_unique_to(per_key@, i as int, a) && exists|m: int|
                    0 <= m < k + 1 && own.elements()[m] == a {
                    let m = choose|m: int| 0 <= m < k + 1 && own.elements()[m] == a;
                    if m < k {
                        assert(before.contains(a));
                    }
                }
            }
        }
        k += 1;
    }
    proof {
        assert forall|a: MemoryAccess| uniq@.contains(a) <==> is_unique_to(
            per_key@,
            i as int,
            a,
        ) by {
            if is_unique_to(per_key@, i as int, a) {
                assert(observed(per_key@, i as int, a));
                let m = choose|m: int| 0 <= m < own.elements().len() && own.elements()[m] == a;
                assert(0 <= m < k && own.elements()[m] == a);
            }
        }
        assert(uniq@ =~= unique_set(per_key@, i as int));
    }
    uniq
}

/// A filter keeps every item of a sequence exactly when every item passes.
pub proof fn lemma_filter_keeps_all<A>(s: Seq<A>, pred: spec_fn(A) -> bool)
    ensures
        s.filter(pred).len() == s.len() <==> forall|i: int| 0 <= i < s.len() ==> pred(s[i]),
    decreases s.len(),
{
    reveal(Seq::filter);
    if s.len() > 0 {
        let d = s.drop_last();
        lemma_filter_keeps_all(d, pred);
        d.lemma_filter_len(pred);
        if forall|i: int| 0 <= i < s.len() ==> pred(s[i]) {
            assert forall|i: int| 0 <= i < d.len() implies pred(d[i]) by {
                assert(d[i] == s[i]);
            }
        }
        if s.filter(pred).len() == s.len() {
            assert forall|i: int| 0 <= i < s.len() implies pred(s[i]) by {
                if i < d.len() {
                    assert(d[i] == s[i]);
                }
            }
        }
    }
}

/// A filter keeps no item of a sequence exactly when no item passes.
pub proof fn lemma_filter_keeps_none<A>(s: Seq<A>, pred: spec_fn(A) -> bool)
    ensures
        s.filter(pred).len() == 0 <==> forall|i: int| 0 <= i < s.len() ==> !pred(s[i]),
    decreases s.len(),
{
    reveal(Seq::filter);
    if s.len() > 0 {
        let d = s.drop_last();
        lemma_filter_keeps_none(d, pred);
        if forall|i: int| 0 <= i < s.len() ==> !pred(s[i]) {
            assert forall|i: int| 0 <= i < d.len() implies !pred(d[i]) by {
                assert(d[i] == s[i]);
            }
        }
        if s.filter(pred).len() == 0 {
            assert forall|i: int| 0 <= i < s.len() implies !pred(s[i]) by {
                if i < d.len() {
                    assert(d[i] == s[i]);
                }
            }
        }
    }
}

/// Whether the `i`-th item of `s` is the only one that passes `pred`.
pub open spec fn only_passes<A>(s: Seq<A>, pred: spec_fn(A) -> bool, i: int) -> bool {
    &&& 0 <= i < s.len()
    &&& pred(s[i])
    &&& forall|j: int| 0 <= j < s.len() && j != i ==> !pred(s[j])
}

/// A filter keeps one item of a sequence exactly when one item alone
/// passes, and then it keeps that item.
pub proof fn lemma_filter_keeps_one<A>(s: Seq<A>, pred: spec_fn(A) -> bool)
    ensures
        s.filter(pred).len() == 1 <==> exists|i: int| only_passes(s, pred, i),
        forall|i: int| only_passes(s, pred, i) ==> s.filter(pred)[0] == s[i],
    decreases s.len(),
{
    reveal(Seq::filter);
    if s.len() > 0 {
        let d = s.drop_last();
        let last = s.len() - 1;
        lemma_filter_keeps_one(d, pred);
        lemma_filter_keeps_none(d, pred);
        assert forall|j: int| 0 <= j < d.len() implies d[j] == s[j] by {}
        if pred(s[last]) {
            if d.filter(pred).len() == 0 {
                assert(only_passes(s, pred, last));
            }
            assert forall|i: int| only_passes(s, pred, i) implies i == last && d.filter(
                pred,
            ).len() == 0 by {
                assert forall|j: int| 0 <= j < d.len() implies !pred(d[j]) by {
                    assert(d[j] == s[j]);
                }
            }
        } else {
            if d.filter(pred).len() == 1 {
                let i = choose|i: int| only_passes(d, pred, i);
                assert forall|j: int| 0 <= j < s.len() && j != i implies !pred(s[j]) by {
                    if j < d.len() {
                        assert(d[j] == s[j]);
                    }
                }
                assert(only_passes(s, pred, i));
            }
            assert forall|i: int| only_passes(s, pred, i) implies only_passes(d, pred, i) by {
                assert forall|j: int| 0 <= j < d.len() && j != i implies !pred(d[j]) by {
                    assert(d[j] == s[j]);
                }
            }
        }
    }
}

/// The keys under which `acc` was observed, in the order of the keys.
pub open spec fn keys_observing(per_key: Seq<KeyAccesses>, acc: MemoryAccess) -> Seq<u32> {
    per_key.filter(|e: KeyAccesses| e.accesses@.contains(acc)).map_values(|e: KeyAccesses| e.key)
}

/// An access is common exactly when there is a key and the access was
/// observed under as many keys as there are.
pub proof fn lemma_common_by_count(per_key: Seq<KeyAccesses>, acc: MemoryAccess)
    ensures
        is_common(per_key, acc) <==> per_key.len() > 0 && keys_observing(per_key, acc).len()
            == per_key.len(),
{
    let pred = |e: KeyAccesses| e.accesses@.contains(acc);
    lemma_filter_keeps_all(per_key, pred);
    if observed_everywhere(per_key, acc) {
        assert forall|i: int| 0 <= i < per_key.len() implies pred(per_key[i]) by {
            assert(observed(per_key, i, acc));
        }
    }
    if forall|i: int| 0 <= i < per_key.len() ==> pred(per_key[i]) {
        assert forall|i: int| 0 <= i < per_key.len() implies observed(per_key, i, acc) by {
            assert(pred(per_key[i]));
        }
    }
}

/// An access is unique to a key exactly when it was observed under one key
/// in all, and that key is then the one.
pub proof fn lemma_unique_by_count(per_key: Seq<KeyAccesses>, acc: MemoryAccess)
    ensures
        keys_observing(per_key, acc).len() == 1 <==> exists|i: int| is_unique_to(per_key, i, acc),
        forall|i: int|
            is_unique_to(per_key, i, acc) ==> keys_observing(per_key, acc)[0] == per_key[i].key,
{
    let pred = |e: KeyAccesses| e.accesses@.contains(acc);
    lemma_filter_keeps_one(per_key, pred);
    assert forall|i: int| is_unique_to(per_key, i, acc) <==> only_passes(per_key, pred, i) by {
        if is_unique_to(per_key, i, acc) {
            assert forall|j: int| 0 <= j < per_key.len() && j != i implies !pred(per_key[j]) by {
                if pred(per_key[j]) {
                    assert(observed(per_key, j, acc));
                }
            }
        }
        if only_passes(per_key, pred, i) {
            if observed_elsewhere(per_key, i, acc) {
                let j = choose|j: int|
                    0 <= j < per_key.len() && j != i && observed(per_key, j, acc);
                assert(pred(per_key[j]));
            }
        }
    }
    if keys_observing(per_key, acc).len() == 1 {
        let i = choose|i: int| only_passes(per_key, pred, i);
        assert(is_unique_to(per_key, i, acc));
    }
    if exists|i: int| is_unique_to(per_key, i, acc) {
        let i = choose|i: int| is_unique_to(per_key, i, acc);
        assert(only_passes(per_key, pred, i));
    }
}

/// The keys under which `acc` was observed, in the order of the keys.
pub fn observing_keys(per_key: &Vec<KeyAccesses>, acc: &MemoryAccess) -> (r: Vec<u32>)
    ensures
        r@ == keys_observing(per_key@, *acc),
{
    let ghost pred = |e: KeyAccesses| e.accesses@.contains(*acc);
    let ghost key_of = |e: KeyAccesses| e.key;
    let mut keys: Vec<u32> = Vec::new();
    let mut i: usize = 0;
    proof {
        reveal(Seq::filter);
        assert(per_key@.take(0).filter(pred).map_values(key_of) =~= Seq::empty());
    }
    while i < per_key.len()
        invariant
            i <= per_key@.len(),
            pred == (|e: KeyAccesses| e.accesses@.contains(*acc)),
            key_of == (|e: KeyAccesses| e.key),
            keys@ == per_key@.take(i as int).filter(pred).map_values(key_of),
        decreases per_key@.len() - i,
    {
        let ghost kept = per_key@.take(i as int).filter(pred);
        proof {
            lemma_filter_step(per_key@, pred, i as int);
        }
        if per_key[i].accesses.contains(acc) {
            keys.push(per_key[i].key);
            proof {
                assert(kept.push(per_key@[i as int]).map_values(key_of) =~= kept.map_values(
                    key_of,
                ).push(per_key@[i as int].key));
            }
        }
        i += 1;
    }
    proof {
        assert(per_key@.take(per_key@.len() as int) =~= per_key@);
    }
    keys
}

/// The accesses observed under any key.
pub open spec fn observed_set(per_key: Seq<KeyAccesses>) -> Set<MemoryAccess> {
    Set::new(|acc: MemoryAccess| observed_somewhere(per_key, acc))
}

/// The accesses observed under any key.
pub fn all_accesses(per_key: &Vec<KeyAccesses>) -> (r: AccessSet)
    ensures
        r@ == observed_set(per_key@),
{
    let mut all = AccessSet::new();
    let mut i: usize = 0;
    proof {
        assert(all@ =~= observed_set(per_key@.take(0)));
    }
    while i < per_key.len()
        invariant
            i <= per_key@.len(),
            all@ == observed_set(per_key@.take(i as int)),
        decreases per_key@.len() - i,
    {
        let own = &per_key[i].accesses;
        let n = own.len();
        let ghost start = all@;
        let mut k: usize = 0;
        while k < n
            invariant
                k <= n,
                n == own.elements().len(),
                forall|a: MemoryAccess|
                    #[trigger] all@.contains(a) <==> start.contains(a) || exists|m: int|
                        0 <= m < k && own.elements()[m] == a,
            decreases n - k,
        {
            let ghost before = all@;
            all.insert(own.get(k));
            proof {
                assert forall|a: MemoryAccess|
                    #[trigger] all@.contains(a) <==> start.contains(a) || exists|m: int|
                        0 <= m < k + 1 && own.elements()[m] == a by {
                    if before.contains(a) && !start.contains(a) {
                        let m = choose|m: int| 0 <= m < k && own.elements()[m] == a;
                        assert(0 <= m < k + 1 && own.elements()[m] == a);
                    }
                    if exists|m: int| 0 <= m < k + 1 && own.elements()[m] == a {
                        let m = choose|m: int| 0 <= m < k + 1 && own.elements()[m] == a;
                        if m < k {
                            assert(before.contains(a));
                        }
                    }
                }
            }
            k += 1;
        }
        proof {
            let s0 = per_key@.take(i as int);
            let s1 = per_key@.take(i + 1);
            assert forall|a: MemoryAccess| all@.contains(a) <==> observed_somewhere(s1, a) by {
                if start.contains(a) {
                    let j = choose|j: int| 0 <= j < s0.len() && observed(s0, j, a);
                    assert(observed(s1, j, a));
                }
                if exists|m: int| 0 <= m < k && own.elements()[m] == a {
                    let m = choose|m: int| 0 <= m < k && own.elements()[m] == a;
                    assert(own@.contains(own.elements()[m]));
                    assert(observed(s1, i as int, a));
                }
                if observed_somewhere(s1, a) {
                    let j = choose|j: int| 0 <= j < s1.len() && observed(s1, j, a);
                    if j < i {
                        assert(observed(s0, j, a));
                    } else {
                        assert(own@.contains(a));
                        let m = choose|m: int|
                            0 <= m < own.elements().len() && own.elements()[m] == a;
                        assert(0 <= m < k && own.elements()[m] == a);
                    }
                }
            }
            assert(all@ =~= observed_set(s1));
        }
        i += 1;
    }
    proof {
        assert(per_key@.take(per_key@.len() as int) =~= per_key@);
    }
    all
}

/// An access with the keys under which it was observed.
#[derive(Debug)]
pub struct AccessKeys {
    /// The access.
    pub access: MemoryAccess,
    /// The keys under which it was observed, in the order of the keys.
    pub keys: Vec<u32>,
}

/// The accesses of an index, in its order.
pub open spec fn indexed(index: Seq<AccessKeys>) -> Seq<MemoryAccess> {
    index.map_values(|e: AccessKeys| e.access)
}

/// The index from each observed access to the keys under which it was
/// observed. The accesses come in ascending order, each once.
pub fn accesses_by_key(per_key: &Vec<KeyAccesses>) -> (r: Vec<AccessKeys>)
    ensures
        ascending(indexed(r@)),
        indexed(r@).to_set() == observed_set(per_key@),
        forall|k: int|
            0 <= k < r@.len() ==> (#[trigger] r@[k]).keys@ == keys_observing(
                per_key@,
                r@[k].access,
            ),
{
    let all = all_accesses(per_key);
    let n = all.len();
    let mut index: Vec<AccessKeys> = Vec::new();
    let mut k: usize = 0;
    while k < n
        invariant
            k <= n,
            n == all.elements().len(),
            index@.len() == k,
            forall|m: int| 0 <= m < k ==> (#[trigger] index@[m]).access == all.elements()[m],
            forall|m: int|
                0 <= m < k ==> (#[trigger] index@[m]).keys@ == keys_observing(
                    per_key@,
                    index@[m].access,
                ),
        decreases n - k,
    {
        let access = all.get(k);
        let keys = observing_keys(per_key, &access);
        index.push(AccessKeys { access, keys });
        k += 1;
    }
    proof {
        assert(indexed(index@) =~= all.elements());
    }
    index
}

/// The accesses of an index that were observed under one key only, each
/// with that key.
pub open spec fn single_key_entries(index: Seq<AccessKeys>) -> Seq<(MemoryAccess, u32)> {
    index.filter(|e: AccessKeys| e.keys@.len() == 1).map_values(
        |e: AccessKeys| (e.access, e.keys@[0]),
    )
}

/// The accesses of an index that were observed under `num_keys` keys.
pub open spec fn full_count_entries(index: Seq<AccessKeys>, num_keys: usize) -> Seq<MemoryAccess> {
    index.filter(|e: AccessKeys| e.keys@.len() == num_keys).map_values(|e: AccessKeys| e.access)
}

/// The accesses that were observed under one key only, each with that key.
pub fn unique_to_one(index: &Vec<AccessKeys>) -> (r: Vec<(MemoryAccess, u32)>)
    ensures
        r@ == single_key_entries(index@),
{
    let ghost pred = |e: AccessKeys| e.keys@.len() == 1;
    let ghost pair = |e: AccessKeys| (e.access, e.keys@[0]);
    let mut r: Vec<(MemoryAccess, u32)> = Vec::new();
    let mut i: usize = 0;
    proof {
        reveal(Seq::filter);
        assert(index@.take(0).filter(pred).map_values(pair) =~= Seq::empty());
    }
    while i < index.len()
        invariant
            i <= index@.len(),
            pred == (|e: AccessKeys| e.keys@.len() == 1),
            pair == (|e: AccessKeys| (e.access, e.keys@[0])),
            r@ == index@.take(i as int).filter(pred).map_values(pair),
        decreases index@.len() - i,
    {
        let ghost kept = index@.take(i as int).filter(pred);
        proof {
            lemma_filter_step(index@, pred, i as int);
        }
        if index[i].keys.len() == 1 {
            r.push((index[i].access, index[i].keys[0]));
            proof {
                assert(kept.push(index@[i as int]).map_values(pair) =~= kept.map_values(pair).push(
                    (index@[i as int].access, index@[i as int].keys@[0]),
                ));
            }
        }
        i += 1;
    }
    proof {
        assert(index@.take(index@.len() as int) =~= index@);
    }
    r
}

/// The accesses that were observed under `num_keys` keys: with the number
/// of keys that were tested, the accesses common to all of them.
pub fn common_to_all(index: &Vec<AccessKeys>, num_keys: usize) -> (r: Vec<MemoryAccess>)
    ensures
        r@ == full_count_entries(index@, num_keys),
{
    let ghost pred = |e: AccessKeys| e.keys@.len() == num_keys;
    let ghost access_of = |e: AccessKeys| e.access;
    let mut r: Vec<MemoryAccess> = Vec::new();
    let mut i: usize = 0;
    proof {
        reveal(Seq::filter);
        assert(index@.take(0).filter(pred).map_values(access_of) =~= Seq::empty());
    }
    while i < index.len()
        invariant
            i <= index@.len(),
            pred == (|e: AccessKeys| e.keys@.len() == num_keys),
            access_of == (|e: AccessKeys| e.access),
            r@ == index@.take(i as int).filter(pred).map_values(access_of),
        decreases index@.len() - i,
    {
        let ghost kept = index@.take(i as int).filter(pred);
        proof {
            lemma_filter_step(index@, pred, i as int);
        }
        if index[i].keys.len() == num_keys {
            r.push(index[i].access);
            proof {
                assert(kept.push(index@[i as int]).map_values(access_of) =~= kept.map_values(
                    access_of,
                ).push(index@[i as int].access));
            }
        }
        i += 1;
    }
    proof {
        assert(index@.take(index@.len() as int) =~= index@);
    }
    r
}

/// The result of a cross-tabulation.
#[derive(Debug)]
pub struct CrossTab {
    /// The accesses observed under every key.
    pub common: AccessSet,
    /// The keys that have accesses unique to them, each with those
    /// accesses, in the order of the keys.
    pub unique: Vec<KeyAccesses>,
}

/// Separates the accesses common to all keys from those unique to one key.
/// The keys come in ascending order, each once, and so do the keys that
/// have unique accesses.
pub fn cross_tabulate(per_key: &Vec<KeyAccesses>) -> (r: CrossTab)
    requires
        keys_ascending(per_key@),
    ensures
        r.common@ == common_set(per_key@),
        entries(r.unique@) == unique_report(per_key@),
        keys_ascending(r.unique@),
{
    let common = common_accesses(per_key);
    let ghost all = unique_by_key(per_key@);
    let ghost pred = |entry: (u32, Set<MemoryAccess>)| has_unique(entry);
    let mut unique: Vec<KeyAccesses> = Vec::new();
    let mut i: usize = 0;
    proof {
        reveal(Seq::filter);
        assert(all.take(0).filter(pred) =~= Seq::empty());
        assert(entries(unique@) =~= Seq::empty());
    }
    while i < per_key.len()
        invariant
            i <= per_key@.len(),
            all == unique_by_key(per_key@),
            pred == (|entry: (u32, Set<MemoryAccess>)| has_unique(entry)),
            entries(unique@) == all.take(i as int).filter(pred),
            keys_ascending(per_key@),
            keys_ascending(unique@),
            forall|j: int|
                0 <= j < unique@.len() && i < per_key@.len() ==> (#[trigger] unique@[j]).key
                    < per_key@[i as int].key,
        decreases per_key@.len() - i,
    {
        let ghost before = entries(unique@);
        let uniq = unique_accesses(per_key, i);
        proof {
            lemma_filter_step(all, pred, i as int);
            assert(all[i as int] == (per_key@[i as int].key, unique_set(per_key@, i as int)));
        }
        let ghost kept = unique@;
        if !uniq.is_empty() {
            unique.push(KeyAccesses { key: per_key[i].key, accesses: uniq });
            proof {
                assert(entries(unique@) =~= before.push(all[i as int]));
                assert forall|a: int, b: int| 0 <= a < b < unique@.len() implies (
                #[trigger] unique@[a]).key < (#[trigger] unique@[b]).key by {
                    if b < kept.len() {
                        assert(kept[a].key < kept[b].key);
                    } else {
                        assert(kept[a].key < per_key@[i as int].key);
                    }
                }
            }
        }
        proof {
            assert forall|j: int|
                0 <= j < unique@.len() && i + 1 < per_key@.len() implies (
            #[trigger] unique@[j]).key < per_key@[i + 1].key by {
                assert(per_key@[i as int].key < per_key@[i + 1].key);
                if j < kept.len() {
                    assert(kept[j].key < per_key@[i as int].key);
                }
            }
        }
        i += 1;
    }
    proof {
        assert(all.take(per_key@.len() as int) =~= all);
    }
    CrossTab { common, unique }
}

} // verus!
