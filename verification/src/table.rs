//! A table of trained weights, keyed by short runs of codepoints.

use crate::text::texts;
use vstd::hash_map::StringHashMap;
use vstd::prelude::*;

verus! {

broadcast use vstd::hash_map::group_hash_map_axioms;

/// The weight that `table` gives to `key`: the stored weight, or zero where
/// the key is absent.
pub open spec fn weight_of(table: Map<Seq<char>, i32>, key: Seq<char>) -> int {
    if table.contains_key(key) {
        table[key] as int
    } else {
        0
    }
}

/// The sum of all weights stored in a finite table.
pub open spec fn weight_sum(table: Map<Seq<char>, i32>) -> int
    decreases table.len(),
{
    if table.dom().finite() && table.len() > 0 {
        let key = table.dom().choose();
        table[key] + weight_sum(table.remove(key))
    } else {
        0
    }
}

/// The sum of a finite table can be taken by setting aside any one of its
/// keys: the order in which the keys are visited does not matter.
pub proof fn lemma_weight_sum_remove(table: Map<Seq<char>, i32>, key: Seq<char>)
    requires
        table.dom().finite(),
        table.contains_key(key),
    ensures
        weight_sum(table) == table[key] + weight_sum(table.remove(key)),
    decreases table.len(),
{
    let chosen = table.dom().choose();
    if chosen != key {
        let without_chosen = table.remove(chosen);
        let without_key = table.remove(key);
        lemma_weight_sum_remove(without_chosen, key);
        lemma_weight_sum_remove(without_key, chosen);
        assert(without_chosen.remove(key) =~= without_key.remove(chosen));
    }
}

/// Storing `weight` under `key` changes the sum by the difference between
/// the new weight and the one that the key had before.
pub proof fn lemma_weight_sum_insert(table: Map<Seq<char>, i32>, key: Seq<char>, weight: i32)
    requires
        table.dom().finite(),
    ensures
        weight_sum(table.insert(key, weight)) == weight_sum(table) - weight_of(table, key)
            + weight,
{
    let after = table.insert(key, weight);
    lemma_weight_sum_remove(after, key);
    assert(after.remove(key) =~= table.remove(key));
    if table.contains_key(key) {
        lemma_weight_sum_remove(table, key);
    } else {
        assert(table.remove(key) =~= table);
    }
}

/// Each weight is a 32-bit integer, so the sum of a finite table lies within
/// the table's size times the range of one weight.
pub proof fn lemma_weight_sum_bounds(table: Map<Seq<char>, i32>)
    requires
        table.dom().finite(),
    ensures
        -0x8000_0000 * table.len() <= weight_sum(table) <= 0x7fff_ffff * table.len(),
    decreases table.len(),
{
    if table.len() > 0 {
        let key = table.dom().choose();
        lemma_weight_sum_bounds(table.remove(key));
        assert(-0x8000_0000 * table.len() <= weight_sum(table) <= 0x7fff_ffff * table.len())
            by (nonlinear_arith)
            requires
                table.remove(key).len() == table.len() - 1,
                -0x8000_0000 <= table[key] <= 0x7fff_ffff,
                weight_sum(table) == table[key] + weight_sum(table.remove(key)),
                -0x8000_0000 * table.remove(key).len() <= weight_sum(table.remove(key))
                    <= 0x7fff_ffff * table.remove(key).len(),
        ;
    }
}

/// A bound on the magnitude of the sum of one table: the magnitude of the
/// widest weight, 2^31, times 2^64, which is more entries than a table can
/// hold.
pub const TABLE_SUM_LIMIT: i128 = 0x8000_0000_0000_0000_0000_0000;

/// The sum of a table with no more entries than a machine can count lies
/// within [`TABLE_SUM_LIMIT`].
pub proof fn lemma_weight_sum_limit(table: Map<Seq<char>, i32>)
    requires
        table.dom().finite(),
        table.len() <= usize::MAX,
    ensures
        -TABLE_SUM_LIMIT <= weight_sum(table) <= TABLE_SUM_LIMIT,
{
    lemma_weight_sum_bounds(table);
    assert(0x8000_0000 * table.len() <= TABLE_SUM_LIMIT) by (nonlinear_arith)
        requires
            table.len() <= 0xffff_ffff_ffff_ffff,
    ;
    assert(0x7fff_ffff * table.len() <= 0x8000_0000 * table.len()) by (nonlinear_arith);
}

/// One feature table of a model: a finite map from short strings to signed
/// weights. Beside the map it keeps a list of the keys, each of them once,
/// and the running sum of the weights.
pub struct FeatureTable {
    keys: Vec<String>,
    weights: StringHashMap<i32>,
    total: i128,
}

impl View for FeatureTable {
    type V = Map<Seq<char>, i32>;

    closed spec fn view(&self) -> Map<Seq<char>, i32> {
        self.weights@
    }
}

impl FeatureTable {
    #[verifier::type_invariant]
    spec fn well_formed(self) -> bool {
        &&& self.weights@.dom().finite()
        &&& texts(self.keys@).no_duplicates()
        &&& texts(self.keys@).to_set() == self.weights@.dom()
        &&& self.total == weight_sum(self.weights@)
    }

    /// A table without entries.
    pub fn new() -> (table: FeatureTable)
        ensures
            table@ == Map::<Seq<char>, i32>::empty(),
    {
        let keys: Vec<String> = Vec::new();
        let weights: StringHashMap<i32> = StringHashMap::new();
        assert(texts(keys@).to_set() =~= weights@.dom());
        FeatureTable { keys, weights, total: 0 }
    }

    /// Stores `weight` under `key`, in place of any weight that the key had.
    pub fn insert(&mut self, key: String, weight: i32)
        ensures
            final(self)@ == old(self)@.insert(key@, weight),
    {
        let mut taken = FeatureTable::new();
        std::mem::swap(self, &mut taken);
        proof {
            use_type_invariant(&taken);
        }
        let FeatureTable { mut keys, mut weights, total } = taken;
        let ghost known = texts(keys@);
        let previous: i32 = match weights.get(key.as_str()) {
            Some(stored) => *stored,
            None => {
                keys.push(key.clone());
                proof {
                    assert(texts(keys@) =~= known.push(key@));
                    known.lemma_push_to_set_commute(key@);
                }
                0
            },
        };
        proof {
            lemma_weight_sum_insert(weights@, key@, weight);
            assert(weights@.len() == weights.spec_len());
            lemma_weight_sum_limit(weights@);
        }
        weights.insert(key, weight);
        assert(texts(keys@).to_set() =~= weights@.dom());
        *self = FeatureTable {
            keys,
            weights,
            total: total - (previous as i128) + (weight as i128),
        };
    }

    /// The weight stored under `key`, or zero where the table has none.
    pub fn weight(&self, key: &str) -> (weight: i32)
        ensures
            weight == weight_of(self@, key@),
    {
        match self.weights.get(key) {
            Some(stored) => *stored,
            None => 0,
        }
    }

    /// The number of entries.
    pub fn len(&self) -> (count: usize)
        ensures
            count == self@.len(),
    {
        self.weights.len()
    }

    /// The sum of all weights in the table.
    pub fn total(&self) -> (sum: i128)
        ensures
            sum == weight_sum(self@),
            -TABLE_SUM_LIMIT <= sum <= TABLE_SUM_LIMIT,
    {
        proof {
            use_type_invariant(self);
            assert(self.weights@.len() == self.weights.spec_len());
            lemma_weight_sum_limit(self.weights@);
        }
        self.total
    }

    /// All entries of the table: each key once, with its weight.
    pub fn entries(&self) -> (entries: Vec<(String, i32)>)
        ensures
            entries.len() == self@.len(),
            forall|j: int|
                0 <= j < entries.len() ==> self@.contains_key(#[trigger] entries[j].0@)
                    && self@[entries[j].0@] == entries[j].1,
            forall|i: int, j: int|
                0 <= i < j < entries.len() ==> entries[i].0@ != entries[j].0@,
            forall|key: Seq<char>|
                self@.contains_key(key) ==> exists|j: int|
                    0 <= j < entries.len() && #[trigger] entries[j].0@ == key,
    {
        proof {
            use_type_invariant(self);
            texts(self.keys@).unique_seq_to_set();
        }
        let mut entries: Vec<(String, i32)> = Vec::new();
        let mut j: usize = 0;
        while j < self.keys.len()
            invariant
                j <= self.keys.len(),
                entries.len() == j,
                texts(self.keys@).to_set() == self.weights@.dom(),
                forall|k: int|
                    0 <= k < j ==> (#[trigger] entries[k]).0@ == self.keys[k]@ && entries[k].1
                        == self.weights@[self.keys[k]@],
            decreases self.keys.len() - j,
        {
            let key = self.keys[j].clone();
            assert(texts(self.keys@)[j as int] == key@);
            let weight: i32 = match self.weights.get(key.as_str()) {
                Some(stored) => *stored,
                None => 0,
            };
            entries.push((key, weight));
            j += 1;
        }
        proof {
            assert forall|k: int| 0 <= k < entries.len() implies self@.contains_key(
                #[trigger] entries[k].0@,
            ) && self@[entries[k].0@] == entries[k].1 by {
                assert(texts(self.keys@)[k] == entries[k].0@);
            }
            assert forall|i: int, k: int| 0 <= i < k < entries.len() implies entries[i].0@
                != entries[k].0@ by {
                assert(texts(self.keys@)[i] != texts(self.keys@)[k]);
            }
            assert forall|key: Seq<char>| self@.contains_key(key) implies exists|k: int|
                0 <= k < entries.len() && #[trigger] entries[k].0@ == key by {
                let k = choose|k: int|
                    0 <= k < texts(self.keys@).len() && texts(self.keys@)[k] == key;
                assert(entries[k].0@ == key);
            }
        }
        entries
    }
}

impl Clone for FeatureTable {
    /// A table with the same entries.
    fn clone(&self) -> (copy: FeatureTable)
        ensures
            copy@ == self@,
    {
        let entries = self.entries();
        let mut copy = FeatureTable::new();
        let mut j: usize = 0;
        while j < entries.len()
            invariant
                j <= entries.len(),
                forall|k: int|
                    0 <= k < entries.len() ==> self@.contains_key(#[trigger] entries[k].0@)
                        && self@[entries[k].0@] == entries[k].1,
                forall|key: Seq<char>|
                    copy@.contains_key(key) <==> exists|k: int|
                        0 <= k < j && #[trigger] entries[k].0@ == key,
                forall|key: Seq<char>| copy@.contains_key(key) ==> copy@[key] == self@[key],
            decreases entries.len() - j,
        {
            let key = entries[j].0.clone();
            copy.insert(key, entries[j].1);
            j += 1;
        }
        copy
    }
}

} // verus!
