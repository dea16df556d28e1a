//! The rule registry: unique numeric identities for the rules of every
//! grammar that shares one registry.

use vstd::prelude::*;
use vstd::string::*;

verus! {

/// A counter from which grammars reserve ranges of rule identities, and
/// the record of which grammar holds which range.
///
/// Every reservation takes the identities from the counter's value onwards
/// and moves the counter past them, so no identity is handed out twice. A
/// grammar that reserves under its name does so once: asking again under
/// the same name gives the range that was reserved the first time.
#[derive(Debug)]
pub struct Registry {
    next: usize,
    entries: Vec<Entry>,
}

/// The range that was reserved under a name.
#[derive(Debug)]
struct Entry {
    ident: String,
    num: Num,
}

/// The identities of one grammar's rules: rule `i` has identity `base + i`.
#[derive(Clone, Copy, Debug, PartialEq, Eq, Structural)]
pub struct Num {
    pub base: usize,
    pub count: usize,
}

impl Registry {
    /// The first identity that has not been reserved yet.
    pub closed spec fn next(&self) -> nat {
        self.next as nat
    }

    /// The names under which ranges were reserved, each with its range, in
    /// the order of the reservations.
    pub closed spec fn registered(&self) -> Seq<(Seq<char>, Num)> {
        Seq::new(self.entries@.len(), |i: int| (self.entries@[i].ident@, self.entries@[i].num))
    }

    /// No name is registered twice, and the registered ranges follow one
    /// another below the counter.
    pub open spec fn wf(&self) -> bool {
        let known = self.registered();
        &&& forall|i: int, j: int|
            0 <= i < j < known.len() ==> (#[trigger] known[i]).0 != (#[trigger] known[j]).0
        &&& forall|i: int|
            0 <= i < known.len() ==> (#[trigger] known[i]).1.base + known[i].1.count
                <= self.next()
        &&& forall|i: int, j: int|
            0 <= i < j < known.len() ==> (#[trigger] known[i]).1.base + known[i].1.count <= (
            #[trigger] known[j]).1.base
    }

    /// A range is registered under `ident`.
    pub open spec fn knows(&self, ident: Seq<char>) -> bool {
        exists|i: int|
            0 <= i < self.registered().len() && (#[trigger] self.registered()[i]).0 == ident
    }

    /// A registry that has handed out nothing.
    pub fn new() -> (registry: Registry)
        ensures
            registry.wf(),
            registry.next() == 0,
            registry.registered() == Seq::<(Seq<char>, Num)>::empty(),
    {
        Registry { next: 0, entries: Vec::new() }
    }

    /// A registry whose first free identity is `next`.
    pub fn starting_at(next: usize) -> (registry: Registry)
        ensures
            registry.wf(),
            registry.next() == next,
            registry.registered() == Seq::<(Seq<char>, Num)>::empty(),
    {
        Registry { next, entries: Vec::new() }
    }

    /// The first identity that has not been reserved yet.
    pub fn first_free(&self) -> (next: usize)
        ensures
            next == self.next(),
    {
        self.next
    }

    /// Whether `count` more identities are left.
    pub fn has_room(&self, count: usize) -> (b: bool)
        ensures
            b == (self.next() + count <= usize::MAX),
    {
        count <= usize::MAX - self.next
    }

    /// Reserves `count` identities under no name and returns the first of
    /// them, the value of the counter before the call.
    pub fn reserve(&mut self, count: usize) -> (base: usize)
        requires
            old(self).next() + count <= usize::MAX,
        ensures
            base == old(self).next(),
            final(self).next() == old(self).next() + count,
            final(self).next() == next_after(old(self).next(), seq![count as nat], 1),
            final(self).registered() == old(self).registered(),
            old(self).wf() ==> final(self).wf(),
    {
        let base: usize = self.next;
        self.next = base + count;
        proof {
            reveal_with_fuel(next_after, 2);
            assert(self.registered() =~= old(self).registered());
        }
        base
    }

    /// The range that was reserved under `ident`, if there is one.
    pub fn lookup(&self, ident: &str) -> (found: Option<Num>)
        ensures
            match found {
                Some(num) => self.registered().contains((ident@, num)),
                None => !self.knows(ident@),
            },
            self.wf() ==> (found matches Some(num) ==> num.wf()),
    {
        let key = String::from_str(ident);
        let mut i: usize = 0;
        while i < self.entries.len()
            invariant
                i <= self.entries.len(),
                key@ == ident@,
                forall|k: int| 0 <= k < i ==> (#[trigger] self.registered()[k]).0 != ident@,
            decreases self.entries.len() - i,
        {
            if self.entries[i].ident == key {
                assert(self.registered()[i as int] == (ident@, self.entries[i as int].num));
                return Some(self.entries[i].num);
            }
            i += 1;
        }
        None
    }

    /// Reserves `count` identities under the name `ident`, which has no
    /// range yet, and returns the range.
    pub fn reserve_as(&mut self, ident: &str, count: usize) -> (num: Num)
        requires
            old(self).wf(),
            !old(self).knows(ident@),
            old(self).next() + count <= usize::MAX,
        ensures
            final(self).wf(),
            num == (Num { base: old(self).next() as usize, count }),
            final(self).next() == old(self).next() + count,
            final(self).registered() == old(self).registered().push((ident@, num)),
    {
        let base: usize = self.next;
        let num = Num { base, count };
        let ghost before = self.registered();
        self.next = base + count;
        self.entries.push(Entry { ident: String::from_str(ident), num });
        proof {
            assert(self.registered() =~= before.push((ident@, num)));
            assert(forall|i: int| 0 <= i < before.len() ==> self.registered()[i] == before[i]);
        }
        num
    }
}

impl Num {
    /// The identities fit in `usize`.
    pub open spec fn wf(&self) -> bool {
        self.base + self.count <= usize::MAX
    }

    /// Whether `identity` belongs to this grammar.
    pub open spec fn contains(&self, identity: int) -> bool {
        self.base <= identity < self.base + self.count
    }

    /// The identity of rule `rule`, as a specification.
    pub open spec fn spec_num(&self, rule: int) -> int {
        self.base + rule
    }

    /// The identity of rule `rule`.
    pub fn num(&self, rule: usize) -> (identity: usize)
        requires
            self.wf(),
            rule < self.count,
        ensures
            identity == self.spec_num(rule as int),
            self.contains(identity as int),
    {
        self.base + rule
    }
}

/// The value of a counter that began at `start`, after the first `k` of
/// the reservations `counts`, made one after the other.
pub open spec fn next_after(start: nat, counts: Seq<nat>, k: int) -> nat
    decreases k,
{
    if k <= 0 {
        start
    } else {
        next_after(start, counts, k - 1) + counts[k - 1]
    }
}

/// The counter never goes back.
pub proof fn lemma_counter_only_grows(start: nat, counts: Seq<nat>, i: int, j: int)
    requires
        0 <= i <= j <= counts.len(),
    ensures
        next_after(start, counts, i) <= next_after(start, counts, j),
    decreases j - i,
{
    if i < j {
        lemma_counter_only_grows(start, counts, i, j - 1);
    }
}

/// Whatever the grammars are and in whatever order they reserve their
/// identities, no identity belongs to two of them: the range of the `i`-th
/// reservation and the range of the `j`-th have nothing in common.
pub proof fn lemma_ranges_never_overlap(
    start: nat,
    counts: Seq<nat>,
    i: int,
    j: int,
    a: nat,
    b: nat,
)
    requires
        0 <= i < counts.len(),
        0 <= j < counts.len(),
        i != j,
        a < counts[i],
        b < counts[j],
    ensures
        next_after(start, counts, i) + a != next_after(start, counts, j) + b,
{
    if i < j {
        lemma_counter_only_grows(start, counts, i + 1, j);
    } else {
        lemma_counter_only_grows(start, counts, j + 1, i);
    }
}

/// No identity belongs to two registered grammars: the ranges that a
/// registry holds under two names have nothing in common.
pub proof fn lemma_registered_ranges_never_overlap(
    registry: Registry,
    i: int,
    j: int,
    a: nat,
    b: nat,
)
    requires
        registry.wf(),
        0 <= i < registry.registered().len(),
        0 <= j < registry.registered().len(),
        i != j,
        a < registry.registered()[i].1.count,
        b < registry.registered()[j].1.count,
    ensures
        registry.registered()[i].0 != registry.registered()[j].0,
        registry.registered()[i].1.base + a != registry.registered()[j].1.base + b,
        registry.registered()[i].1.base + a < registry.next(),
{
    let known = registry.registered();
    if i < j {
        assert(known[i].1.base + known[i].1.count <= known[j].1.base);
    } else {
        assert(known[j].1.base + known[j].1.count <= known[i].1.base);
    }
}

/// A name stands for one range: what is registered under a name is
/// registered nowhere else under it.
pub proof fn lemma_a_name_has_one_range(registry: Registry, ident: Seq<char>, one: Num, other: Num)
    requires
        registry.wf(),
        registry.registered().contains((ident, one)),
        registry.registered().contains((ident, other)),
    ensures
        one == other,
{
    let known = registry.registered();
    let i = choose|i: int| 0 <= i < known.len() && known[i] == (ident, one);
    let j = choose|j: int| 0 <= j < known.len() && known[j] == (ident, other);
    if i < j {
        assert(known[i].0 != known[j].0);
    } else if j < i {
        assert(known[j].0 != known[i].0);
    }
}

} // verus!
