//! Ordering by byte keys: the laws of byte-wise lexicographic order, and a
//! an insertion sort and a de-duplication of sorted lists keyed by bytes.
use vstd::multiset::Multiset;
use vstd::prelude::*;
use vstd::seq_lib::{to_multiset_build, to_multiset_insert};

use crate::bytes::{bytes_less, bytes_lt, str_bytes};

verus! {

/// Values ordered by a byte string derived from them.
pub trait SortKey {
    /// The bytes the value is ordered by.
    spec fn key(&self) -> Seq<u8>;

    /// The bytes the value is ordered by.
    fn key_bytes(&self) -> (bytes: &[u8])
        ensures
            bytes@ == self.key(),
    ;
}

impl SortKey for String {
    open spec fn key(&self) -> Seq<u8> {
        str_bytes(self@)
    }

    fn key_bytes(&self) -> (bytes: &[u8]) {
        self.as_str().as_bytes()
    }
}

impl SortKey for [u8; 32] {
    open spec fn key(&self) -> Seq<u8> {
        self@
    }

    fn key_bytes(&self) -> (bytes: &[u8]) {
        self.as_slice()
    }
}

/// Keys never decrease along the sequence.
pub open spec fn keys_sorted<T: SortKey>(items: Seq<T>) -> bool {
    forall|i: int, j: int|
        0 <= i < j < items.len() ==> !bytes_lt(#[trigger] items[j].key(), #[trigger] items[i].key())
}

/// Keys strictly increase along the sequence.
pub open spec fn keys_strictly_sorted<T: SortKey>(items: Seq<T>) -> bool {
    forall|i: int, j: int|
        0 <= i < j < items.len() ==> bytes_lt(#[trigger] items[i].key(), #[trigger] items[j].key())
}

/// Some element of the sequence has this key.
pub open spec fn has_key<T: SortKey>(items: Seq<T>, key: Seq<u8>) -> bool {
    exists|i: int| 0 <= i < items.len() && #[trigger] items[i].key() == key
}

/// Byte order is irreflexive.
pub proof fn lemma_bytes_lt_irreflexive(a: Seq<u8>)
    ensures
        !bytes_lt(a, a),
    decreases a.len(),
{
    if a.len() > 0 {
        lemma_bytes_lt_irreflexive(a.drop_first());
    }
}

/// Byte order is transitive.
pub proof fn lemma_bytes_lt_transitive(a: Seq<u8>, b: Seq<u8>, c: Seq<u8>)
    requires
        bytes_lt(a, b),
        bytes_lt(b, c),
    ensures
        bytes_lt(a, c),
    decreases a.len(),
{
    if a.len() > 0 && b.len() > 0 && c.len() > 0 && a[0] == b[0] && b[0] == c[0] {
        lemma_bytes_lt_transitive(a.drop_first(), b.drop_first(), c.drop_first());
    }
}

/// Byte order is total: of two different byte strings one sorts first.
pub proof fn lemma_bytes_lt_total(a: Seq<u8>, b: Seq<u8>)
    ensures
        bytes_lt(a, b) || bytes_lt(b, a) || a == b,
    decreases a.len(),
{
    if a.len() > 0 && b.len() > 0 && a[0] == b[0] {
        lemma_bytes_lt_total(a.drop_first(), b.drop_first());
        if a.drop_first() == b.drop_first() {
            assert(a =~= seq![a[0]] + a.drop_first());
            assert(b =~= seq![b[0]] + b.drop_first());
        }
    } else if a.len() == 0 && b.len() == 0 {
        assert(a =~= b);
    }
}

/// Byte order is asymmetric.
pub proof fn lemma_bytes_lt_asymmetric(a: Seq<u8>, b: Seq<u8>)
    requires
        bytes_lt(a, b),
    ensures
        !bytes_lt(b, a),
{
    if bytes_lt(b, a) {
        lemma_bytes_lt_transitive(a, b, a);
        lemma_bytes_lt_irreflexive(a);
    }
}

/// The first position in a sorted list whose key is not below `key`.
fn insertion_point<T: SortKey>(sorted: &Vec<T>, key: &[u8]) -> (position: usize)
    requires
        keys_sorted(sorted@),
    ensures
        position <= sorted@.len(),
        forall|i: int| 0 <= i < position ==> bytes_lt(#[trigger] sorted@[i].key(), key@),
        forall|i: int| position <= i < sorted@.len() ==> !bytes_lt(#[trigger] sorted@[i].key(), key@),
{
    let mut position: usize = 0;
    while position < sorted.len()
        invariant
            position <= sorted@.len(),
            keys_sorted(sorted@),
            forall|i: int| 0 <= i < position ==> bytes_lt(#[trigger] sorted@[i].key(), key@),
        decreases sorted@.len() - position,
    {
        if !bytes_less(sorted[position].key_bytes(), key) {
            proof {
                assert forall|i: int| position <= i < sorted@.len() implies !bytes_lt(
                    #[trigger] sorted@[i].key(),
                    key@,
                ) by {
                    if i > position {
                        assert(!bytes_lt(sorted@[i].key(), sorted@[position as int].key()));
                        if bytes_lt(sorted@[i].key(), key@) {
                            lemma_bytes_lt_total(sorted@[i].key(), sorted@[position as int].key());
                            if sorted@[i].key() == sorted@[position as int].key() {
                            } else {
                                lemma_bytes_lt_transitive(
                                    sorted@[position as int].key(),
                                    sorted@[i].key(),
                                    key@,
                                );
                            }
                        }
                    }
                }
            }
            return position;
        }
        position = position + 1;
    }
    position
}

/// Sorts by key; of items with equal keys, those earlier in the input stay earlier.
pub fn sort_by_key<T: SortKey>(items: Vec<T>) -> (sorted: Vec<T>)
    ensures
        sorted@.to_multiset() == items@.to_multiset(),
        sorted@.len() == items@.len(),
        keys_sorted(sorted@),
{
    broadcast use vstd::multiset::group_multiset_axioms;
    broadcast use vstd::seq_lib::group_to_multiset_ensures;

    let ghost original = items@;
    let mut rest = items;
    let mut sorted: Vec<T> = Vec::new();
    assert(sorted@.to_multiset() =~= Multiset::<T>::empty());
    assert(rest@.to_multiset().add(sorted@.to_multiset()) =~= original.to_multiset());
    while rest.len() > 0
        invariant
            rest@.to_multiset().add(sorted@.to_multiset()) == original.to_multiset(),
            rest@.len() + sorted@.len() == original.len(),
            keys_sorted(sorted@),
        decreases rest@.len(),
    {
        let ghost before_rest = rest@;
        let ghost before_sorted = sorted@;
        let item = match rest.pop() {
            Some(item) => item,
            None => {
                assert(false);
                return sorted;
            },
        };
        let position = insertion_point(&sorted, item.key_bytes());
        sorted.insert(position, item);
        proof {
            assert(before_rest =~= rest@.push(item));
            to_multiset_build(rest@, item);
            to_multiset_insert(before_sorted, position as int, item);
            assert(sorted@ =~= before_sorted.insert(position as int, item));
            assert(rest@.to_multiset().add(sorted@.to_multiset()) =~= original.to_multiset());
            assert forall|i: int, j: int| 0 <= i < j < sorted@.len() implies !bytes_lt(
                #[trigger] sorted@[j].key(),
                #[trigger] sorted@[i].key(),
            ) by {
                let p = position as int;
                if j < p {
                    assert(sorted@[i] == before_sorted[i] && sorted@[j] == before_sorted[j]);
                } else if j == p {
                    assert(sorted@[i] == before_sorted[i]);
                    lemma_bytes_lt_asymmetric(before_sorted[i].key(), item.key());
                } else if i < p {
                    assert(sorted@[i] == before_sorted[i] && sorted@[j] == before_sorted[j - 1]);
                    lemma_bytes_lt_total(before_sorted[j - 1].key(), item.key());
                    if bytes_lt(before_sorted[j - 1].key(), before_sorted[i].key()) {
                        lemma_bytes_lt_transitive(
                            before_sorted[j - 1].key(),
                            before_sorted[i].key(),
                            item.key(),
                        );
                    }
                } else if i == p {
                    assert(sorted@[j] == before_sorted[j - 1]);
                } else {
                    assert(sorted@[i] == before_sorted[i - 1] && sorted@[j] == before_sorted[j
                        - 1]);
                }
            }
        }
    }
    assert(rest@ =~= Seq::<T>::empty());
    assert(rest@.to_multiset() =~= Multiset::<T>::empty());
    assert(sorted@.to_multiset() =~= original.to_multiset());
    sorted
}

/// Keeps one item of each run of equal keys in a sorted list.
pub fn dedup_sorted<T: SortKey>(items: Vec<T>) -> (unique: Vec<T>)
    requires
        keys_sorted(items@),
    ensures
        keys_strictly_sorted(unique@),
        forall|key: Seq<u8>| has_key(unique@, key) <==> has_key(items@, key),
        unique@.len() <= items@.len(),
{
    let ghost original = items@;
    let mut rest = items;
    let mut reversed: Vec<T> = Vec::new();
    while rest.len() > 0
        invariant
            keys_sorted(original),
            rest@ == original.take(rest@.len() as int),
            rest@.len() <= original.len(),
            reversed@.len() <= original.len() - rest@.len(),
            forall|i: int, j: int|
                0 <= i < j < reversed@.len() ==> bytes_lt(
                    #[trigger] reversed@[j].key(),
                    #[trigger] reversed@[i].key(),
                ),
            forall|key: Seq<u8>|
                has_key(reversed@, key) <==> (exists|i: int|
                    rest@.len() <= i < original.len() && #[trigger] original[i].key() == key),
            reversed@.len() > 0 ==> rest@.len() < original.len() && reversed@.last().key()
                == original[rest@.len() as int].key(),
        decreases rest@.len(),
    {
        let ghost before_reversed = reversed@;
        let item = match rest.pop() {
            Some(item) => item,
            None => {
                assert(false);
                return reversed;
            },
        };
        let n = rest.len();
        assert(rest@ =~= original.take(n as int));
        assert(item == original[n as int]);
        let keep = if reversed.len() == 0 {
            true
        } else {
            !crate::bytes::bytes_equal(reversed[reversed.len() - 1].key_bytes(), item.key_bytes())
        };
        if keep {
            reversed.push(item);
            proof {
                if before_reversed.len() > 0 {
                    let last = before_reversed.last();
                    assert(!bytes_lt(original[n + 1].key(), original[n as int].key()));
                    lemma_bytes_lt_total(original[n as int].key(), original[n + 1].key());
                }
                assert forall|i: int, j: int| 0 <= i < j < reversed@.len() implies bytes_lt(
                    #[trigger] reversed@[j].key(),
                    #[trigger] reversed@[i].key(),
                ) by {
                    if j == reversed@.len() - 1 {
                        let last = before_reversed.last();
                        if i < before_reversed.len() - 1 {
                            assert(reversed@[i] == before_reversed[i]);
                            lemma_bytes_lt_transitive(
                                original[n as int].key(),
                                last.key(),
                                before_reversed[i].key(),
                            );
                        }
                    } else {
                        assert(reversed@[i] == before_reversed[i]);
                        assert(reversed@[j] == before_reversed[j]);
                    }
                }
                assert forall|key: Seq<u8>| has_key(reversed@, key) <==> (exists|i: int|
                    n <= i < original.len() && #[trigger] original[i].key() == key) by {
                    if has_key(reversed@, key) {
                        let k = choose|k: int|
                            0 <= k < reversed@.len() && #[trigger] reversed@[k].key() == key;
                        if k < reversed@.len() - 1 {
                            assert(before_reversed[k] == reversed@[k]);
                            assert(has_key(before_reversed, key));
                        } else {
                            assert(original[n as int].key() == key);
                        }
                    }
                    if exists|i: int| n <= i < original.len() && #[trigger] original[i].key()
                        == key {
                        let i = choose|i: int|
                            n <= i < original.len() && #[trigger] original[i].key() == key;
                        if i == n {
                            assert(reversed@[reversed@.len() - 1].key() == key);
                        } else {
                            assert(has_key(before_reversed, key));
                            let k = choose|k: int|
                                0 <= k < before_reversed.len()
                                    && #[trigger] before_reversed[k].key() == key;
                            assert(reversed@[k] == before_reversed[k]);
                        }
                    }
                }
            }
        } else {
            proof {
                assert(reversed@.last().key() == original[n as int].key());
                assert forall|key: Seq<u8>| has_key(reversed@, key) <==> (exists|i: int|
                    n <= i < original.len() && #[trigger] original[i].key() == key) by {
                    if exists|i: int| n <= i < original.len() && #[trigger] original[i].key()
                        == key {
                        let i = choose|i: int|
                            n <= i < original.len() && #[trigger] original[i].key() == key;
                        if i == n {
                            assert(reversed@[reversed@.len() - 1].key() == key);
                        }
                    }
                }
            }
        }
    }
    let unique = reverse(reversed);
    proof {
        assert forall|key: Seq<u8>| has_key(unique@, key) <==> has_key(original, key) by {
            if has_key(unique@, key) {
                let k = choose|k: int| 0 <= k < unique@.len() && #[trigger] unique@[k].key() == key;
                assert(unique@[k] == reversed@[reversed@.len() - 1 - k]);
            }
            if has_key(reversed@, key) {
                let k = choose|k: int|
                    0 <= k < reversed@.len() && #[trigger] reversed@[k].key() == key;
                assert(unique@[reversed@.len() - 1 - k] == reversed@[k]);
            }
        }
        assert forall|i: int, j: int| 0 <= i < j < unique@.len() implies bytes_lt(
            #[trigger] unique@[i].key(),
            #[trigger] unique@[j].key(),
        ) by {
            assert(unique@[i] == reversed@[reversed@.len() - 1 - i]);
            assert(unique@[j] == reversed@[reversed@.len() - 1 - j]);
        }
    }
    unique
}

fn reverse<T>(items: Vec<T>) -> (reversed: Vec<T>)
    ensures
        reversed@.len() == items@.len(),
        forall|i: int| 0 <= i < items@.len() ==> reversed@[i] == items@[items@.len() - 1 - i],
{
    let ghost original = items@;
    let mut rest = items;
    let mut reversed: Vec<T> = Vec::new();
    while rest.len() > 0
        invariant
            rest@ == original.take(rest@.len() as int),
            reversed@.len() + rest@.len() == original.len(),
            forall|i: int|
                0 <= i < reversed@.len() ==> reversed@[i] == original[original.len() - 1 - i],
        decreases rest@.len(),
    {
        let item = match rest.pop() {
            Some(item) => item,
            None => {
                assert(false);
                return reversed;
            },
        };
        assert(rest@ =~= original.take(rest@.len() as int));
        reversed.push(item);
    }
    reversed
}

} // verus!
