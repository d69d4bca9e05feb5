//! Memory accesses and ordered sets of them.
//!
//! A [`MemoryAccess`] is identified by its three fields. Accesses are
//! ordered by physical address, then width, then kind; an [`AccessSet`]
//! keeps its members in that order, each once.

use vstd::prelude::*;
use crate::sample::Sample;

verus! {

/// Some type of memory access (a load, a store, or both at once).
#[derive(Copy, Clone, Debug, PartialEq, Eq, Structural, PartialOrd, Ord, Hash)]
pub enum MemoryAccessKind {
    LD,
    ST,
    LDST,
}

impl MemoryAccessKind {
    /// Position of the kind in the order of kinds.
    pub open spec fn rank(self) -> int {
        match self {
            MemoryAccessKind::LD => 0,
            MemoryAccessKind::ST => 1,
            MemoryAccessKind::LDST => 2,
        }
    }

    /// The kind that a pair of store and load flags stands for, if any. An
    /// op that is tagged as both is one access of the combined kind.
    pub open spec fn of_flags(st: bool, ld: bool) -> Option<MemoryAccessKind> {
        if st && ld {
            Some(MemoryAccessKind::LDST)
        } else if st {
            Some(MemoryAccessKind::ST)
        } else if ld {
            Some(MemoryAccessKind::LD)
        } else {
            None
        }
    }

    /// The name of the kind.
    pub open spec fn name_text(self) -> Seq<char> {
        match self {
            MemoryAccessKind::LD => "LD"@,
            MemoryAccessKind::ST => "ST"@,
            MemoryAccessKind::LDST => "LDST"@,
        }
    }

    /// The name of the kind.
    pub fn name(self) -> (r: &'static str)
        ensures
            r@ == self.name_text(),
    {
        match self {
            MemoryAccessKind::LD => "LD",
            MemoryAccessKind::ST => "ST",
            MemoryAccessKind::LDST => "LDST",
        }
    }

    /// Position of the kind in the order of kinds.
    pub fn ordinal(self) -> (r: u8)
        ensures
            r == self.rank(),
    {
        match self {
            MemoryAccessKind::LD => 0,
            MemoryAccessKind::ST => 1,
            MemoryAccessKind::LDST => 2,
        }
    }
}

/// A record of a sampled memory access.
#[derive(Copy, Clone, Debug, PartialEq, Eq, Structural, PartialOrd, Ord, Hash)]
pub struct MemoryAccess {
    /// The physical address tagged for this access.
    pub phys: u64,
    /// The width of this access in bytes.
    pub width: usize,
    /// The kind of access (load or store).
    pub kind: MemoryAccessKind,
}

impl MemoryAccess {
    /// Whether `self` comes before `other`: by address, then by width, then
    /// by kind.
    pub open spec fn precedes(self, other: MemoryAccess) -> bool {
        ||| self.phys < other.phys
        ||| self.phys == other.phys && self.width < other.width
        ||| self.phys == other.phys && self.width == other.width && self.kind.rank()
            < other.kind.rank()
    }

    /// The access that a sample records: none where its program counter is
    /// invalid or it is tagged neither load nor store.
    pub open spec fn of_sample(s: Sample) -> Option<MemoryAccess> {
        if s.data.rip_invalid() {
            None
        } else {
            match MemoryAccessKind::of_flags(s.data3.st_op(), s.data3.ld_op()) {
                Some(kind) => Some(
                    MemoryAccess {
                        phys: s.phyad,
                        width: s.data3.op_mem_width().spec_bytes() as usize,
                        kind,
                    },
                ),
                None => None,
            }
        }
    }

    /// Whether `self` comes before `other` in the order of accesses.
    pub fn less_than(&self, other: &MemoryAccess) -> (r: bool)
        ensures
            r == self.precedes(*other),
    {
        if self.phys != other.phys {
            self.phys < other.phys
        } else if self.width != other.width {
            self.width < other.width
        } else {
            self.kind.ordinal() < other.kind.ordinal()
        }
    }

    /// Try to obtain a [`MemoryAccess`] from a [`Sample`]. Every sample
    /// gives an answer: none where its program counter is invalid or it is
    /// tagged neither load nor store, and else the access with its kind, its
    /// physical address and its width in bytes, which is 0 where the
    /// hardware does not define the width code.
    pub fn from_sample(sample: &Sample) -> (r: Option<MemoryAccess>)
        ensures
            r == MemoryAccess::of_sample(*sample),
            r is None <==> sample.data.rip_invalid() || !(sample.data3.st_op()
                || sample.data3.ld_op()),
            r matches Some(a) ==> a.phys == sample.phyad && Some(a.kind)
                == MemoryAccessKind::of_flags(sample.data3.st_op(), sample.data3.ld_op()),
    {
        if sample.data.rip_invalid() {
            return None;
        }
        let st = sample.data3.st_op();
        let ld = sample.data3.ld_op();
        let kind = if st && ld {
            MemoryAccessKind::LDST
        } else if st {
            MemoryAccessKind::ST
        } else if ld {
            MemoryAccessKind::LD
        } else {
            return None;
        };
        let phys = sample.phyad;
        let width = sample.data3.op_mem_width().bytes();
        Some(MemoryAccess { phys, width, kind })
    }
}

/// Two accesses are in order one way, or the other, or are the same access.
pub proof fn lemma_access_order_total(a: MemoryAccess, b: MemoryAccess)
    ensures
        a.precedes(b) || b.precedes(a) || a == b,
        !(a.precedes(b) && b.precedes(a)),
        !a.precedes(a),
{
}

/// Whether `s` is in strictly ascending order.
pub open spec fn ascending(s: Seq<MemoryAccess>) -> bool {
    forall|i: int, j: int| 0 <= i < j < s.len() ==> (#[trigger] s[i]).precedes(#[trigger] s[j])
}

/// The set that results from inserting the items of `s` one by one into
/// `init`.
pub open spec fn insert_all(init: Set<MemoryAccess>, s: Seq<MemoryAccess>) -> Set<MemoryAccess>
    decreases s.len(),
{
    if s.len() == 0 {
        init
    } else {
        insert_all(init, s.drop_last()).insert(s.last())
    }
}

/// Inserting the items of a sequence one by one leaves what was there and
/// adds exactly the items of the sequence.
pub proof fn lemma_insert_all_members(init: Set<MemoryAccess>, s: Seq<MemoryAccess>)
    ensures
        insert_all(init, s) == init.union(s.to_set()),
    decreases s.len(),
{
    if s.len() == 0 {
        assert(s.to_set() =~= Set::<MemoryAccess>::empty());
        assert(init.union(s.to_set()) =~= init);
    } else {
        lemma_insert_all_members(init, s.drop_last());
        let d = s.drop_last();
        assert forall|a: MemoryAccess| s.to_set().contains(a) <==> (d.to_set().contains(a) || a
            == s.last()) by {
            if s.to_set().contains(a) {
                let i = choose|i: int| 0 <= i < s.len() && s[i] == a;
                if i < s.len() - 1 {
                    assert(d[i] == a);
                }
            }
            if d.to_set().contains(a) {
                let i = choose|i: int| 0 <= i < d.len() && d[i] == a;
                assert(s[i] == a);
            }
            if a == s.last() {
                assert(s[s.len() - 1] == a);
            }
        }
        assert(insert_all(init, s) =~= init.union(s.to_set()));
    }
}

/// Two ascending sequences with the same members are the same sequence.
pub proof fn lemma_ascending_unique(s: Seq<MemoryAccess>, t: Seq<MemoryAccess>)
    requires
        ascending(s),
        ascending(t),
        s.to_set() == t.to_set(),
    ensures
        s == t,
    decreases s.len(),
{
    if s.len() == 0 {
        if t.len() > 0 {
            assert(t.to_set().contains(t[0]));
            assert(s.to_set().contains(t[0]));
        }
        assert(s =~= t);
    } else {
        let m = s.last();
        assert(s.to_set().contains(m));
        assert(t.to_set().contains(m));
        let k = choose|k: int| 0 <= k < t.len() && t[k] == m;
        // m is the greatest member, so it is the last item of t as well
        if k < t.len() - 1 {
            let x = t[t.len() - 1];
            assert(t[k].precedes(x));
            assert(t.to_set().contains(x));
            assert(s.to_set().contains(x));
            let i = choose|i: int| 0 <= i < s.len() && s[i] == x;
            if i < s.len() - 1 {
                assert(s[i].precedes(s[s.len() - 1]));
            }
        }
        let sd = s.drop_last();
        let td = t.drop_last();
        assert forall|a: MemoryAccess| sd.to_set().contains(a) <==> td.to_set().contains(a) by {
            if sd.to_set().contains(a) {
                let i = choose|i: int| 0 <= i < sd.len() && sd[i] == a;
                assert(s[i].precedes(s[s.len() - 1]));
                assert(s.to_set().contains(s[i]));
                assert(t.to_set().contains(a));
                let j = choose|j: int| 0 <= j < t.len() && t[j] == a;
                assert(td[j] == a);
            }
            if td.to_set().contains(a) {
                let j = choose|j: int| 0 <= j < td.len() && td[j] == a;
                assert(t[j].precedes(t[t.len() - 1]));
                assert(t.to_set().contains(t[j]));
                assert(s.to_set().contains(a));
                let i = choose|i: int| 0 <= i < s.len() && s[i] == a;
                assert(sd[i] == a);
            }
        }
        assert(sd.to_set() =~= td.to_set());
        lemma_ascending_unique(sd, td);
        assert(s =~= sd.push(m));
        assert(t =~= td.push(m));
    }
}

/// Inserting an access a second time changes nothing: duplicates collapse.
pub proof fn lemma_insert_idempotent(s: Set<MemoryAccess>, acc: MemoryAccess)
    ensures
        s.insert(acc).insert(acc) == s.insert(acc),
        s.contains(acc) ==> s.insert(acc) == s,
{
    assert(s.insert(acc).insert(acc) =~= s.insert(acc));
    if s.contains(acc) {
        assert(s.insert(acc) =~= s);
    }
}

/// Round trip: the members of a set, inserted one by one into an empty
/// set, give the same set again, with the same members in the same order.
pub proof fn lemma_reinsertion_round_trip(members: Seq<MemoryAccess>, again: Seq<MemoryAccess>)
    requires
        ascending(members),
        ascending(again),
        again.to_set() == insert_all(Set::empty(), members),
    ensures
        insert_all(Set::empty(), members) == members.to_set(),
        again == members,
{
    lemma_insert_all_members(Set::empty(), members);
    assert(Set::<MemoryAccess>::empty().union(members.to_set()) =~= members.to_set());
    lemma_ascending_unique(again, members);
}

/// What a sample records as its access is decided by its data words and
/// its physical address: two samples that agree in them record the same.
pub proof fn lemma_of_sample_deterministic(a: Sample, b: Sample)
    requires
        a.data == b.data,
        a.data3 == b.data3,
        a.phyad == b.phyad,
    ensures
        MemoryAccess::of_sample(a) == MemoryAccess::of_sample(b),
{
}

/// A set of memory accesses, kept in ascending order.
#[derive(Debug)]
pub struct AccessSet {
    items: Vec<MemoryAccess>,
}

impl View for AccessSet {
    type V = Set<MemoryAccess>;

    open spec fn view(&self) -> Set<MemoryAccess> {
        self.elements().to_set()
    }
}

impl Clone for AccessSet {
    fn clone(&self) -> (r: AccessSet)
        ensures
            r.elements() == self.elements(),
            r@ == self@,
    {
        AccessSet { items: self.to_vec() }
    }
}

impl AccessSet {
    #[verifier::type_invariant]
    spec fn ordered(self) -> bool {
        ascending(self.items@)
    }

    /// The members in ascending order.
    pub closed spec fn elements(&self) -> Seq<MemoryAccess> {
        self.items@
    }

    /// An empty set.
    pub fn new() -> (r: AccessSet)
        ensures
            r@ == Set::<MemoryAccess>::empty(),
            r.elements() == Seq::<MemoryAccess>::empty(),
            ascending(r.elements()),
    {
        let r = AccessSet { items: Vec::new() };
        assert(r.items@.to_set() =~= Set::<MemoryAccess>::empty());
        r
    }

    /// The number of members.
    pub fn len(&self) -> (r: usize)
        ensures
            r == self.elements().len(),
            r == self@.len(),
            ascending(self.elements()),
    {
        proof {
            use_type_invariant(self);
            lemma_ascending_no_duplicates(self.items@);
            self.items@.unique_seq_to_set();
        }
        self.items.len()
    }

    /// Whether the set has no member.
    pub fn is_empty(&self) -> (r: bool)
        ensures
            r == (self@.len() == 0),
            r == (self.elements().len() == 0),
            r == (self@ == Set::<MemoryAccess>::empty()),
    {
        proof {
            if self.items@.len() > 0 {
                assert(self.items@.to_set().contains(self.items@[0]));
            } else {
                assert(self.items@.to_set() =~= Set::<MemoryAccess>::empty());
            }
        }
        self.len() == 0
    }

    /// The `i`-th member in ascending order.
    pub fn get(&self, i: usize) -> (r: MemoryAccess)
        requires
            i < self.elements().len(),
        ensures
            r == self.elements()[i as int],
            self@.contains(r),
    {
        self.items[i]
    }

    /// The members in ascending order.
    pub fn to_vec(&self) -> (r: Vec<MemoryAccess>)
        ensures
            r@ == self.elements(),
            ascending(r@),
    {
        proof {
            use_type_invariant(self);
        }
        let mut r: Vec<MemoryAccess> = Vec::new();
        let mut i: usize = 0;
        while i < self.items.len()
            invariant
                i <= self.items@.len(),
                r@ == self.items@.take(i as int),
            decreases self.items@.len() - i,
        {
            r.push(self.items[i]);
            proof {
                assert(r@ =~= self.items@.take(i + 1));
            }
            i += 1;
        }
        proof {
            assert(r@ =~= self.items@);
        }
        r
    }

    /// The number of members that come before `acc`, and whether `acc` is a
    /// member.
    pub fn search(&self, acc: &MemoryAccess) -> (r: (usize, bool))
        ensures
            r.0 <= self.elements().len(),
            forall|i: int| 0 <= i < r.0 ==> (#[trigger] self.elements()[i]).precedes(*acc),
            forall|i: int|
                r.0 <= i < self.elements().len() ==> !(#[trigger] self.elements()[i]).precedes(*acc),
            r.1 == self@.contains(*acc),
            r.1 ==> r.0 < self.elements().len() && self.elements()[r.0 as int] == *acc,
    {
        proof {
            use_type_invariant(self);
        }
        let mut pos: usize = 0;
        while pos < self.items.len() && self.items[pos].less_than(acc)
            invariant
                pos <= self.items@.len(),
                forall|i: int| 0 <= i < pos ==> (#[trigger] self.items@[i]).precedes(*acc),
            decreases self.items@.len() - pos,
        {
            pos += 1;
        }
        let found = pos < self.items.len() && !acc.less_than(&self.items[pos]);
        proof {
            let s = self.items@;
            assert forall|i: int| pos <= i < s.len() implies !(#[trigger] s[i]).precedes(*acc) by {
                if pos < i {
                    assert(s[pos as int].precedes(s[i]));
                }
            }
            if found {
                assert(s[pos as int] == *acc);
                assert(s.to_set().contains(*acc));
            } else if s.to_set().contains(*acc) {
                let k = choose|k: int| 0 <= k < s.len() && s[k] == *acc;
                if k < pos {
                    assert(s[k].precedes(*acc));
                } else if k > pos {
                    assert(s[pos as int].precedes(s[k]));
                }
            }
        }
        (pos, found)
    }

    /// Whether `acc` is a member.
    pub fn contains(&self, acc: &MemoryAccess) -> (r: bool)
        ensures
            r == self@.contains(*acc),
    {
        self.search(acc).1
    }

    /// Adds `acc` to the set. Returns the position of `acc` among the
    /// members and whether it was new; a member that was there stays once.
    pub fn insert(&mut self, acc: MemoryAccess) -> (r: (usize, bool))
        ensures
            final(self)@ == old(self)@.insert(acc),
            r.1 == !old(self)@.contains(acc),
            r.0 < final(self).elements().len(),
            final(self).elements()[r.0 as int] == acc,
            r.1 ==> r.0 <= old(self).elements().len(),
            r.1 ==> final(self).elements() == old(self).elements().insert(r.0 as int, acc),
            !r.1 ==> final(self).elements() == old(self).elements(),
            ascending(old(self).elements()),
            ascending(final(self).elements()),
    {
        proof {
            use_type_invariant(&*self);
        }
        let (pos, found) = self.search(&acc);
        if found {
            assert(self@.insert(acc) =~= self@);
            return (pos, false);
        }
        let ghost before = self.items@;
        let mut items: Vec<MemoryAccess> = Vec::new();
        core::mem::swap(&mut items, &mut self.items);
        items.insert(pos, acc);
        proof {
            let after = items@;
            assert(after == before.insert(pos as int, acc));
            assert forall|i: int, j: int| 0 <= i < j < after.len() implies (#[trigger] after[i]).precedes(
                #[trigger] after[j],
            ) by {
                let bi = if i < pos { i } else { i - 1 };
                let bj = if j < pos { j } else { j - 1 };
                if i == pos {
                    assert(!before[bj].precedes(acc));
                    lemma_access_order_total(before[bj], acc);
                    if before[bj] == acc {
                        assert(before.to_set().contains(acc));
                    }
                } else if j == pos {
                    assert(before[bi].precedes(acc));
                } else {
                    assert(before[bi].precedes(before[bj]));
                }
            }
            assert forall|a: MemoryAccess| after.to_set().contains(a) <==> before.to_set().insert(
                acc,
            ).contains(a) by {
                if after.to_set().contains(a) {
                    let i = choose|i: int| 0 <= i < after.len() && after[i] == a;
                    if i < pos {
                        assert(before[i] == a);
                    } else if i > pos {
                        assert(before[i - 1] == a);
                    }
                }
                if before.to_set().contains(a) {
                    let i = choose|i: int| 0 <= i < before.len() && before[i] == a;
                    if i < pos {
                        assert(after[i] == a);
                    } else {
                        assert(after[i + 1] == a);
                    }
                }
                if a == acc {
                    assert(after[pos as int] == a);
                }
            }
            assert(after.to_set() =~= before.to_set().insert(acc));
        }
        self.items = items;
        (pos, true)
    }

    /// The set of the items of `v`: each item is inserted in turn, and an
    /// item that occurs more than once is kept once.
    pub fn from_items(v: &Vec<MemoryAccess>) -> (r: AccessSet)
        ensures
            r@ == insert_all(Set::empty(), v@),
            r@ == v@.to_set(),
            ascending(r.elements()),
            ascending(v@) ==> r.elements() == v@,
    {
        let mut r = AccessSet::new();
        let mut i: usize = 0;
        while i < v.len()
            invariant
                i <= v@.len(),
                r@ == insert_all(Set::empty(), v@.take(i as int)),
            decreases v@.len() - i,
        {
            proof {
                assert(v@.take(i + 1).drop_last() =~= v@.take(i as int));
            }
            r.insert(v[i]);
            i += 1;
        }
        proof {
            assert(v@.take(v@.len() as int) =~= v@);
            lemma_insert_all_members(Set::empty(), v@);
            assert(Set::<MemoryAccess>::empty().union(v@.to_set()) =~= v@.to_set());
            use_type_invariant(&r);
            if ascending(v@) {
                lemma_ascending_unique(r.items@, v@);
            }
        }
        r
    }
}

/// An ascending sequence holds no item twice.
pub proof fn lemma_ascending_no_duplicates(s: Seq<MemoryAccess>)
    requires
        ascending(s),
    ensures
        s.no_duplicates(),
{
    assert forall|i: int, j: int| 0 <= i < s.len() && 0 <= j < s.len() && i != j implies s[i]
        != s[j] by {
        if i < j {
            assert(s[i].precedes(s[j]));
        } else {
            assert(s[j].precedes(s[i]));
        }
    }
}

} // verus!
