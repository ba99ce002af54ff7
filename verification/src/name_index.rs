//! An ordered registry of distinct names. The position of a name is the
//! index of what it names; a name that is taken gets a numbered variant.

use vstd::prelude::*;
use vstd::set_lib::lemma_len_subset;
use crate::text::{candidate, lemma_suffixed_injective, numbered_name, texts};

verus! {

/// The number of the first candidate for `base`, from candidate `k` on, that
/// is not in `taken`. At most `budget` candidates are passed over.
pub open spec fn first_free_from(taken: Seq<Seq<char>>, base: Seq<char>, k: nat, budget: nat) -> nat
    decreases budget,
{
    if budget == 0 || !taken.contains(candidate(base, k)) {
        k
    } else {
        first_free_from(taken, base, k + 1, (budget - 1) as nat)
    }
}

/// The number of the first candidate for `base` that is not in `taken`. Among
/// the first `taken.len() + 1` candidates one is always free.
pub open spec fn first_free_number(taken: Seq<Seq<char>>, base: Seq<char>) -> nat {
    first_free_from(taken, base, 0, taken.len())
}

/// The name that is handed out for `base`: `base` itself where it is free,
/// else the first of `base_1`, `base_2`, ... that is.
pub open spec fn first_free_name(taken: Seq<Seq<char>>, base: Seq<char>) -> Seq<char> {
    candidate(base, first_free_number(taken, base))
}

/// The first `k` candidates for `base`, as a set.
pub open spec fn candidates(base: Seq<char>, k: nat) -> Set<Seq<char>>
    decreases k,
{
    if k == 0 {
        Set::empty()
    } else {
        candidates(base, (k - 1) as nat).insert(candidate(base, (k - 1) as nat))
    }
}

/// Two candidates for one base agree only where their numbers do.
pub proof fn lemma_candidate_injective(base: Seq<char>, a: nat, b: nat)
    requires
        candidate(base, a) == candidate(base, b),
    ensures
        a == b,
{
    if a == 0 && b != 0 {
        assert(candidate(base, b).len() > base.len());
    } else if a != 0 && b == 0 {
        assert(candidate(base, a).len() > base.len());
    } else if a != 0 && b != 0 {
        lemma_suffixed_injective(base, a, b);
    }
}

/// The first `k` candidates are `k` different names.
pub proof fn lemma_candidates_count(base: Seq<char>, k: nat)
    ensures
        candidates(base, k).finite(),
        candidates(base, k).len() == k,
        forall|j: nat| j < k ==> candidates(base, k).contains(#[trigger] candidate(base, j)),
        forall|s: Seq<char>| #[trigger]
            candidates(base, k).contains(s) ==> exists|j: nat| j < k && s == candidate(base, j),
    decreases k,
{
    if k > 0 {
        let before = (k - 1) as nat;
        lemma_candidates_count(base, before);
        let fresh = candidate(base, before);
        if candidates(base, before).contains(fresh) {
            let j = choose|j: nat| j < before && fresh == candidate(base, j);
            lemma_candidate_injective(base, j, before);
        }
        assert forall|s: Seq<char>| #[trigger]
            candidates(base, k).contains(s) implies exists|j: nat|
            j < k && s == candidate(base, j) by {
            if s == fresh {
                assert(before < k && s == candidate(base, before));
            } else {
                let j = choose|j: nat| j < before && s == candidate(base, j);
                assert(j < k && s == candidate(base, j));
            }
        }
    }
}

/// Where the first `k` candidates are all taken, at least `k` names are
/// taken.
pub proof fn lemma_taken_candidates(taken: Seq<Seq<char>>, base: Seq<char>, k: nat)
    requires
        forall|j: nat| j < k ==> taken.contains(#[trigger] candidate(base, j)),
    ensures
        k <= taken.len(),
{
    lemma_candidates_count(base, k);
    taken.lemma_cardinality_of_set();
    vstd::seq_lib::seq_to_set_is_finite(taken);
    assert forall|s: Seq<char>| candidates(base, k).contains(s) implies taken.to_set().contains(
        s,
    ) by {
        let j = choose|j: nat| j < k && s == candidate(base, j);
        assert(taken.contains(candidate(base, j)));
    }
    lemma_len_subset(candidates(base, k), taken.to_set());
}

/// The name that is handed out is free, and every candidate before it is
/// taken.
pub proof fn lemma_first_free(taken: Seq<Seq<char>>, base: Seq<char>)
    ensures
        !taken.contains(first_free_name(taken, base)),
        forall|j: nat|
            j < first_free_number(taken, base) ==> taken.contains(#[trigger] candidate(base, j)),
        first_free_number(taken, base) <= taken.len(),
{
    lemma_first_free_from(taken, base, 0, taken.len());
}

/// The same, for a search that has passed over the first `k` candidates.
proof fn lemma_first_free_from(taken: Seq<Seq<char>>, base: Seq<char>, k: nat, budget: nat)
    requires
        k + budget == taken.len(),
        forall|j: nat| j < k ==> taken.contains(#[trigger] candidate(base, j)),
    ensures
        !taken.contains(candidate(base, first_free_from(taken, base, k, budget))),
        forall|j: nat|
            j < first_free_from(taken, base, k, budget) ==> taken.contains(
                #[trigger] candidate(base, j),
            ),
        first_free_from(taken, base, k, budget) <= taken.len(),
    decreases budget,
{
    if taken.contains(candidate(base, k)) {
        lemma_taken_candidates(taken, base, k + 1);
        lemma_first_free_from(taken, base, k + 1, (budget - 1) as nat);
    }
}

/// Where `base` and its numbered names up to `k - 1` are taken and the
/// `k`-th is free, the `k`-th is handed out: successive collisions give
/// `base_1`, `base_2`, ... in this order.
pub proof fn lemma_numbered_in_sequence(taken: Seq<Seq<char>>, base: Seq<char>, k: nat)
    requires
        forall|j: nat| j < k ==> taken.contains(#[trigger] candidate(base, j)),
        !taken.contains(candidate(base, k)),
    ensures
        first_free_name(taken, base) == candidate(base, k),
{
    lemma_taken_candidates(taken, base, k);
    lemma_first_free_reaches(taken, base, 0, k);
}

/// A search from candidate `j` on stops at the first free candidate `k`.
proof fn lemma_first_free_reaches(taken: Seq<Seq<char>>, base: Seq<char>, j: nat, k: nat)
    requires
        j <= k <= taken.len(),
        forall|i: nat| i < k ==> taken.contains(#[trigger] candidate(base, i)),
        !taken.contains(candidate(base, k)),
    ensures
        first_free_from(taken, base, j, (taken.len() - j) as nat) == k,
    decreases k - j,
{
    if j < k {
        lemma_first_free_reaches(taken, base, j + 1, k);
    }
}

/// Distinct names in a fixed order.
#[derive(Debug, Clone)]
pub struct NameIndex {
    names: Vec<String>,
}

impl View for NameIndex {
    type V = Seq<Seq<char>>;

    closed spec fn view(&self) -> Seq<Seq<char>> {
        texts(self.names@)
    }
}

impl NameIndex {
    /// No name occurs twice.
    pub open spec fn well_formed(&self) -> bool {
        self@.no_duplicates()
    }

    /// An index without names.
    pub fn new() -> (r: NameIndex)
        ensures
            r@ == Seq::<Seq<char>>::empty(),
            r.well_formed(),
    {
        let r = NameIndex { names: Vec::new() };
        assert(r@ =~= Seq::<Seq<char>>::empty());
        r
    }

    /// How many names are registered.
    pub fn len(&self) -> (r: usize)
        ensures
            r == self@.len(),
    {
        self.names.len()
    }

    /// The names in their order.
    pub fn names(&self) -> (r: &Vec<String>)
        ensures
            texts(r@) == self@,
    {
        &self.names
    }

    /// The name at position `index`.
    pub fn name_at(&self, index: usize) -> (r: &String)
        requires
            index < self@.len(),
        ensures
            r@ == self@[index as int],
    {
        &self.names[index]
    }

    /// The position of `name`, if it is registered.
    pub fn position(&self, name: &str) -> (r: Option<usize>)
        ensures
            match r {
                Some(i) => i < self@.len() && self@[i as int] == name@,
                None => !self@.contains(name@),
            },
    {
        let wanted = name.to_owned();
        let mut i: usize = 0;
        while i < self.names.len()
            invariant
                i <= self.names@.len(),
                wanted@ == name@,
                forall|j: int| 0 <= j < i ==> self@[j] != name@,
            decreases self.names@.len() - i,
        {
            if self.names[i] == wanted {
                return Some(i);
            }
            i += 1;
        }
        None
    }

    /// Whether `name` is registered.
    pub fn contains(&self, name: &str) -> (r: bool)
        ensures
            r == self@.contains(name@),
    {
        self.position(name).is_some()
    }

    /// The name to hand out for `base`: `base` itself where it is free, else
    /// the first of `base_1`, `base_2`, ... that is free.
    pub fn first_free(&self, base: &str) -> (r: String)
        ensures
            r@ == first_free_name(self@, base@),
            !self@.contains(r@),
    {
        let count = self.len();
        let mut k: usize = 0;
        let mut name = base.to_owned();
        while self.contains(name.as_str())
            invariant
                count == self@.len(),
                k <= self@.len(),
                name@ == candidate(base@, k as nat),
                forall|j: nat| j < k ==> self@.contains(#[trigger] candidate(base@, j)),
                first_free_number(self@, base@) == first_free_from(
                    self@,
                    base@,
                    k as nat,
                    (self@.len() - k) as nat,
                ),
            decreases self@.len() - k,
        {
            proof {
                lemma_taken_candidates(self@, base@, (k + 1) as nat);
            }
            k += 1;
            name = numbered_name(base, k);
        }
        name
    }

    /// Registers `name` behind the names that are there.
    pub fn push(&mut self, name: String)
        requires
            old(self).well_formed(),
            !old(self)@.contains(name@),
        ensures
            final(self)@ == old(self)@.push(name@),
            final(self).well_formed(),
    {
        self.names.push(name);
        assert(self@ =~= old(self)@.push(name@));
        assert forall|i: int, j: int|
            0 <= i < self@.len() && 0 <= j < self@.len() && i != j implies self@[i] != self@[j] by {
            if i < old(self)@.len() && j < old(self)@.len() {
                assert(old(self)@[i] != old(self)@[j]);
            }
        }
    }

    /// Puts `name` in the place of the name at position `index`.
    pub fn replace(&mut self, index: usize, name: String)
        requires
            old(self).well_formed(),
            index < old(self)@.len(),
            !old(self)@.contains(name@),
        ensures
            final(self)@ == old(self)@.update(index as int, name@),
            final(self).well_formed(),
    {
        self.names[index] = name;
        assert(self@ =~= old(self)@.update(index as int, name@));
        assert forall|i: int, j: int|
            0 <= i < self@.len() && 0 <= j < self@.len() && i != j implies self@[i] != self@[j] by {
            if i != index && j != index {
                assert(old(self)@[i] != old(self)@[j]);
            }
        }
    }

    /// Takes out the name at position `index`; the names behind it move up.
    pub fn remove(&mut self, index: usize)
        requires
            old(self).well_formed(),
            index < old(self)@.len(),
        ensures
            final(self)@ == old(self)@.remove(index as int),
            final(self).well_formed(),
    {
        self.names.remove(index);
        assert(self@ =~= old(self)@.remove(index as int));
        assert forall|i: int, j: int|
            0 <= i < self@.len() && 0 <= j < self@.len() && i != j implies self@[i] != self@[j] by {
            let a = if i < index {
                i
            } else {
                i + 1
            };
            let b = if j < index {
                j
            } else {
                j + 1
            };
            assert(old(self)@[a] != old(self)@[b]);
        }
    }
}

} // verus!
