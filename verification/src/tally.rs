//! Resource amounts and their checked sums.

use vstd::prelude::*;

verus! {

/// An amount of each resource, as mathematical numbers: CPU in millicores,
/// memory and storage in bytes, pods as a count.
pub ghost struct Amounts {
    pub cpu: nat,
    pub mem: nat,
    pub storage: nat,
    pub pods: nat,
}

impl Amounts {
    pub open spec fn zero() -> Amounts {
        Amounts { cpu: 0, mem: 0, storage: 0, pods: 0 }
    }

    /// The sum in each dimension.
    pub open spec fn plus(self, other: Amounts) -> Amounts {
        Amounts {
            cpu: self.cpu + other.cpu,
            mem: self.mem + other.mem,
            storage: self.storage + other.storage,
            pods: self.pods + other.pods,
        }
    }

    /// The larger of the two in each dimension.
    pub open spec fn peak(self, other: Amounts) -> Amounts {
        Amounts {
            cpu: if self.cpu >= other.cpu { self.cpu } else { other.cpu },
            mem: if self.mem >= other.mem { self.mem } else { other.mem },
            storage: if self.storage >= other.storage { self.storage } else { other.storage },
            pods: if self.pods >= other.pods { self.pods } else { other.pods },
        }
    }

    /// No dimension of `self` exceeds that of `other`.
    pub open spec fn le(self, other: Amounts) -> bool {
        &&& self.cpu <= other.cpu
        &&& self.mem <= other.mem
        &&& self.storage <= other.storage
        &&& self.pods <= other.pods
    }

    /// Every dimension fits the machine type that holds it.
    pub open spec fn fits(self) -> bool {
        &&& self.cpu <= u32::MAX
        &&& self.mem <= u64::MAX
        &&& self.storage <= u64::MAX
        &&& self.pods <= usize::MAX
    }
}

/// The sum of a sequence of amounts.
pub open spec fn total(s: Seq<Amounts>) -> Amounts
    decreases s.len(),
{
    if s.len() == 0 {
        Amounts::zero()
    } else {
        total(s.drop_last()).plus(s.last())
    }
}

/// The amounts that a sequence of outcomes holds, a failed one counted as
/// nothing.
pub open spec fn amounts_of(s: Seq<Option<Amounts>>) -> Seq<Amounts> {
    s.map_values(
        |o: Option<Amounts>|
            match o {
                Some(a) => a,
                None => Amounts::zero(),
            },
    )
}

/// The sum of a sequence of outcomes: it fails where one of them failed or
/// where the sum does not fit the machine types.
pub open spec fn checked_total(s: Seq<Option<Amounts>>) -> Option<Amounts> {
    if (forall|i: int| 0 <= i < s.len() ==> (#[trigger] s[i]) is Some) && total(
        amounts_of(s),
    ).fits() {
        Some(total(amounts_of(s)))
    } else {
        None
    }
}

/// An amount of each resource in machine integers.
#[derive(Clone, Copy, Debug, PartialEq, Eq, Structural)]
pub struct Tally {
    pub cpu: u32,
    pub mem: u64,
    pub storage: u64,
    pub pods: usize,
}

impl View for Tally {
    type V = Amounts;

    open spec fn view(&self) -> Amounts {
        Amounts {
            cpu: self.cpu as nat,
            mem: self.mem as nat,
            storage: self.storage as nat,
            pods: self.pods as nat,
        }
    }
}

/// The view of an outcome.
pub open spec fn outcome_view(o: Option<Tally>) -> Option<Amounts> {
    match o {
        Some(t) => Some(t@),
        None => None,
    }
}

/// The views of a sequence of outcomes.
pub open spec fn outcome_views(s: Seq<Option<Tally>>) -> Seq<Option<Amounts>> {
    s.map_values(|o: Option<Tally>| outcome_view(o))
}

impl Tally {
    pub fn zero() -> (t: Tally)
        ensures
            t@ == Amounts::zero(),
    {
        Tally { cpu: 0, mem: 0, storage: 0, pods: 0 }
    }

    /// The sum in each dimension, or `None` where one does not fit.
    pub fn checked_add(&self, other: &Tally) -> (r: Option<Tally>)
        ensures
            outcome_view(r) == if self@.plus(other@).fits() {
                Some(self@.plus(other@))
            } else {
                None
            },
    {
        let cpu = match self.cpu.checked_add(other.cpu) {
            Some(x) => x,
            None => { return None; },
        };
        let mem = match self.mem.checked_add(other.mem) {
            Some(x) => x,
            None => { return None; },
        };
        let storage = match self.storage.checked_add(other.storage) {
            Some(x) => x,
            None => { return None; },
        };
        let pods = match self.pods.checked_add(other.pods) {
            Some(x) => x,
            None => { return None; },
        };
        Some(Tally { cpu, mem, storage, pods })
    }

    /// The larger of the two in each dimension.
    pub fn peak(&self, other: &Tally) -> (t: Tally)
        ensures
            t@ == self@.peak(other@),
    {
        Tally {
            cpu: if self.cpu >= other.cpu { self.cpu } else { other.cpu },
            mem: if self.mem >= other.mem { self.mem } else { other.mem },
            storage: if self.storage >= other.storage { self.storage } else { other.storage },
            pods: if self.pods >= other.pods { self.pods } else { other.pods },
        }
    }
}

/// A sum never falls below the sum of a prefix: amounts are not negative.
pub proof fn lemma_total_prefix(s: Seq<Amounts>, k: int)
    requires
        0 <= k <= s.len(),
    ensures
        total(s.take(k)).le(total(s)),
    decreases s.len(),
{
    if k == s.len() {
        assert(s.take(k) == s);
    } else {
        assert(s.drop_last().take(k) == s.take(k));
        lemma_total_prefix(s.drop_last(), k);
    }
}

/// Sums a list of outcomes.
pub fn sum_tallies(items: &Vec<Option<Tally>>) -> (r: Option<Tally>)
    ensures
        outcome_view(r) == checked_total(outcome_views(items@)),
{
    let ghost s = outcome_views(items@);
    let ghost a = amounts_of(s);
    let mut acc = Tally::zero();
    let mut i: usize = 0;
    assert(a.take(0) == Seq::<Amounts>::empty());
    while i < items.len()
        invariant
            i <= items.len(),
            s == outcome_views(items@),
            a == amounts_of(s),
            forall|j: int| 0 <= j < i ==> (#[trigger] s[j]) is Some,
            acc@ == total(a.take(i as int)),
        decreases items.len() - i,
    {
        proof {
            assert(a.take(i + 1).drop_last() == a.take(i as int));
            assert(a.take(i + 1).last() == a[i as int]);
            lemma_total_prefix(a, i + 1);
        }
        match items[i] {
            None => {
                assert(s[i as int] is None);
                return None;
            },
            Some(t) => {
                assert(s[i as int] == Some(t@));
                match acc.checked_add(&t) {
                    None => {
                        return None;
                    },
                    Some(next) => {
                        acc = next;
                    },
                }
            },
        }
        i += 1;
    }
    assert(a.take(a.len() as int) == a);
    Some(acc)
}

} // verus!
